use vstd::prelude::*;
use std::collections::HashMap;
use vstd::std_specs::hash::spec_keys_iter;
use vstd::std_specs::iter::IteratorSpec;
use crate::channel::Outbound;
use tokio::sync::mpsc::UnboundedSender;
use crate::laws::groups_nonempty;

verus! {

/// What the registry holds, as a mathematical value: for each group with at
/// least one live connection, each connection id mapped to the frames offered
/// to that connection's outbound queue so far.
pub type RegistryView = Map<i32, Map<u128, Seq<Seq<char>>>>;

/// The connections registered under `group` (none when the group is absent).
pub open spec fn recipients(m: RegistryView, group: i32) -> Set<u128> {
    if m.contains_key(group) {
        m[group].dom()
    } else {
        Set::empty()
    }
}

/// Whether connection `id` is registered under some group.
pub open spec fn is_registered(m: RegistryView, id: u128) -> bool {
    exists|g: i32| m.contains_key(g) && #[trigger] m[g].contains_key(id)
}

/// The group under which `id` is registered, when it is.
pub open spec fn home_of(m: RegistryView, id: u128) -> i32 {
    choose|g: i32| m.contains_key(g) && #[trigger] m[g].contains_key(id)
}

/// `m` with the entry `group`/`id` removed, and the group dropped when that
/// entry was its last one.
pub open spec fn without(m: RegistryView, group: i32, id: u128) -> RegistryView {
    if m.contains_key(group) && m[group].contains_key(id) {
        if m[group].remove(id).is_empty() {
            m.remove(group)
        } else {
            m.insert(group, m[group].remove(id))
        }
    } else {
        m
    }
}

/// `m` with connection `id` removed from whichever group holds it.
pub open spec fn detach(m: RegistryView, id: u128) -> RegistryView {
    if is_registered(m, id) {
        without(m, home_of(m, id), id)
    } else {
        m
    }
}

/// `m` with connection `id`, whose queue has seen `log`, added under `group`.
pub open spec fn attach(m: RegistryView, group: i32, id: u128, log: Seq<Seq<char>>) -> RegistryView {
    if m.contains_key(group) {
        m.insert(group, m[group].insert(id, log))
    } else {
        m.insert(group, Map::empty().insert(id, log))
    }
}

/// `m` after `frame` is offered to every connection registered under `group`.
pub open spec fn offer_to_group(m: RegistryView, group: i32, frame: Seq<char>) -> RegistryView {
    if m.contains_key(group) {
        m.insert(group, m[group].map_values(|log: Seq<Seq<char>>| log.push(frame)))
    } else {
        m
    }
}

/// The number of connections registered under `group`.
pub open spec fn count_in(m: RegistryView, group: i32) -> nat {
    recipients(m, group).len()
}

/// The frames offered so far to each queue of one group's table.
pub open spec fn queue_view(inner: HashMap<u128, Outbound>) -> Map<u128, Seq<Seq<char>>> {
    inner@.map_values(|o: Outbound| o.offered())
}

/// The outcome of offering one broadcast frame to one connection's queue.
pub struct Delivery {
    pub connection: u128,
    /// False when the queue's consumer was already gone.
    pub accepted: bool,
}

/// The connections named by a broadcast report, in report order.
pub open spec fn delivered_to(report: Seq<Delivery>) -> Seq<u128> {
    report.map_values(|d: Delivery| d.connection)
}

/// The keys of `inner`, each once, in the map's own order.
fn connection_ids(inner: &HashMap<u128, Outbound>) -> (ids: Vec<u128>)
    ensures
        ids@.no_duplicates(),
        ids@.to_set() == inner@.dom(),
{
    let mut ids: Vec<u128> = Vec::new();
    let ghost keys = spec_keys_iter(inner).remaining().unref();
    for k in it: inner.keys()
        invariant
            it.seq() == spec_keys_iter(inner).remaining(),
            keys == spec_keys_iter(inner).remaining().unref(),
            ids@ == keys.take(it.index() as int),
    {
        ids.push(*k);
        assert(ids@ =~= keys.take(it.index() as int + 1));
    }
    assert(ids@ =~= keys);
    ids
}

/// The process-wide table from group to the outbound queues of the sessions
/// bound to that group.
pub struct ConnectionRegistry {
    groups: HashMap<i32, HashMap<u128, Outbound>>,
    homes: HashMap<u128, i32>,
}

impl View for ConnectionRegistry {
    type V = RegistryView;

    closed spec fn view(&self) -> RegistryView {
        self.groups@.map_values(|inner: HashMap<u128, Outbound>| queue_view(inner))
    }
}

impl ConnectionRegistry {
    /// No group is kept without a connection, and each connection sits under
    /// exactly the group that the reverse index names for it.
    pub closed spec fn wf(&self) -> bool {
        &&& forall|g: i32| #[trigger]
            self.groups@.contains_key(g) ==> !self.groups@[g]@.is_empty()
        &&& forall|g: i32, c: u128|
            self.groups@.contains_key(g) && #[trigger] self.groups@[g]@.contains_key(c)
                ==> self.homes@.contains_key(c) && self.homes@[c] == g
        &&& forall|c: u128| #[trigger]
            self.homes@.contains_key(c) ==> self.groups@.contains_key(self.homes@[c])
                && self.groups@[self.homes@[c]]@.contains_key(c)
    }

    proof fn lemma_view_keys(&self)
        ensures
            forall|g: i32| #[trigger] self@.contains_key(g) == self.groups@.contains_key(g),
            forall|g: i32, c: u128| self@.contains_key(g) ==>
                (#[trigger] self@[g].contains_key(c) == self.groups@[g]@.contains_key(c)),
            forall|g: i32, c: u128| self@.contains_key(g) && self@[g].contains_key(c) ==>
                #[trigger] self@[g][c] == self.groups@[g]@[c].offered(),
    {
    }

    /// A well-formed registry, which `new` makes and every method keeps,
    /// holds no group key without at least one connection under it.
    pub proof fn lemma_no_dangling_group(&self)
        requires
            self.wf(),
        ensures
            groups_nonempty(self@),
            forall|g: i32| #[trigger] self@.contains_key(g) <==> count_in(self@, g) > 0,
    {
        assert forall|g: i32| #[trigger] self@.contains_key(g) implies self@[g].dom().finite()
            && self@[g].len() > 0 by {
            assert(self@[g].dom() =~= self.groups@[g]@.dom());
            assert(!self.groups@[g]@.is_empty());
            if self@[g].dom().len() == 0 {
                self@[g].dom().lemma_len0_is_empty();
                assert(self.groups@[g]@.dom() =~= Set::empty());
            }
        }
    }

    /// In a well-formed registry a connection is registered under at most
    /// one group at a time.
    pub proof fn lemma_one_group_per_connection(&self)
        requires
            self.wf(),
        ensures
            forall|g1: i32, g2: i32, c: u128|
                self@.contains_key(g1) && self@.contains_key(g2) && #[trigger] self@[g1].contains_key(c)
                    && #[trigger] self@[g2].contains_key(c) ==> g1 == g2,
    {
        assert forall|g1: i32, g2: i32, c: u128|
            self@.contains_key(g1) && self@.contains_key(g2) && #[trigger] self@[g1].contains_key(c)
                && #[trigger] self@[g2].contains_key(c) implies g1 == g2 by {
            assert(self.groups@[g1]@.contains_key(c));
            assert(self.groups@[g2]@.contains_key(c));
        }
    }

    pub fn new() -> (r: ConnectionRegistry)
        ensures
            r.wf(),
            r@ == RegistryView::empty(),
    {
        let r = ConnectionRegistry { groups: HashMap::new(), homes: HashMap::new() };
        assert(r@ =~= RegistryView::empty());
        r
    }

    /// Registers the outbound queue `tx` of connection `id` under `group`,
    /// with nothing offered to it yet. A connection already registered
    /// elsewhere is first removed from its old group.
    pub fn register(&mut self, group: i32, id: u128, tx: UnboundedSender<String>)
        requires
            old(self).wf(),
        ensures
            final(self).wf(),
            final(self)@ == attach(detach(old(self)@, id), group, id, Seq::empty()),
    {
        let out = Outbound::new(tx);
        let prev = match self.homes.get(&id) {
            Some(g) => Some(*g),
            None => None,
        };
        match prev {
            Some(g) => {
                proof {
                    let m = old(self)@;
                    assert(m.contains_key(g) && m[g].contains_key(id));
                    assert(is_registered(m, id));
                    let h = home_of(m, id);
                    assert(self.groups@[h]@.contains_key(id));
                }
                self.deregister(g, id);
                assert(self@ == detach(old(self)@, id));
            },
            None => {
                proof {
                    assert(!is_registered(old(self)@, id)) by {
                        if is_registered(old(self)@, id) {
                            let h = home_of(old(self)@, id);
                            assert(self.groups@[h]@.contains_key(id));
                        }
                    }
                }
                assert(self@ == detach(old(self)@, id));
            },
        }
        proof {
            self.lemma_view_keys();
            assert forall|g: i32| #[trigger] self.groups@.contains_key(g) implies !self.groups@[g]@.contains_key(id) by {
                assert(self@.contains_key(g));
                let m = old(self)@;
                old(self).lemma_view_keys();
                if m.contains_key(g) && m[g].contains_key(id) {
                    assert(old(self).groups@[g]@.contains_key(id));
                    assert(old(self).homes@[id] == g);
                    assert(is_registered(m, id));
                    let h = home_of(m, id);
                    assert(old(self).groups@[h]@.contains_key(id));
                    assert(h == g);
                    assert(!self@[g].contains_key(id));
                } else {
                    if is_registered(m, id) {
                        let h = home_of(m, id);
                        assert(old(self).groups@[h]@.contains_key(id));
                        assert(h != g);
                    }
                    assert(!self@[g].contains_key(id));
                }
            }
            assert(!self.homes@.contains_key(id));
        }
        let ghost mid = self@;
        let ghost log = out.offered();
        let mut inner = match self.groups.remove(&group) {
            Some(existing) => existing,
            None => HashMap::new(),
        };
        let ghost before = inner;
        inner.insert(id, out);
        self.groups.insert(group, inner);
        self.homes.insert(id, group);
        proof {
            assert(queue_view(inner) =~= queue_view(before).insert(id, log));
            if mid.contains_key(group) {
                assert(self@ =~= mid.insert(group, mid[group].insert(id, log)));
            } else {
                assert(before@ =~= Map::<u128, Outbound>::empty());
                assert(queue_view(inner) =~= Map::empty().insert(id, log));
                assert(self@ =~= mid.insert(group, Map::empty().insert(id, log)));
            }
        }
    }

    /// Offers `frame` to the queue of every connection registered under
    /// `group`, one offer each. A queue that refuses the frame (its session is
    /// gone) is reported and skipped; it never stops delivery to the others.
    pub fn broadcast(&mut self, group: i32, frame: &String) -> (report: Vec<Delivery>)
        requires
            old(self).wf(),
        ensures
            final(self).wf(),
            final(self)@ == offer_to_group(old(self)@, group, frame@),
            delivered_to(report@).no_duplicates(),
            delivered_to(report@).to_set() == recipients(old(self)@, group),
            report.len() == count_in(old(self)@, group),
    {
        let ghost m = self@;
        match self.groups.remove(&group) {
            None => {
                proof {
                    assert(self@ =~= offer_to_group(m, group, frame@));
                    assert(delivered_to(Seq::<Delivery>::empty()).to_set() =~= recipients(m, group));
                    assert(recipients(m, group) =~= Set::empty());
                }
                Vec::new()
            },
            Some(mut inner) => {
                let ghost before = inner;
                let ids = connection_ids(&inner);
                let mut report: Vec<Delivery> = Vec::new();
                let mut i: usize = 0;
                while i < ids.len()
                    invariant
                        i <= ids.len(),
                        ids@.no_duplicates(),
                        ids@.to_set() == before@.dom(),
                        inner@.dom() == before@.dom(),
                        delivered_to(report@) == ids@.take(i as int),
                        forall|j: int| 0 <= j < i ==> #[trigger] inner@[ids@[j]].offered()
                            == before@[ids@[j]].offered().push(frame@),
                        forall|j: int| i <= j < ids.len() ==> #[trigger] inner@[ids@[j]].offered()
                            == before@[ids@[j]].offered(),
                    decreases ids.len() - i,
                {
                    let id = ids[i];
                    assert(ids@.to_set().contains(id));
                    let ghost current = inner@;
                    assert(current[ids@[i as int]].offered() == before@[ids@[i as int]].offered());
                    let mut out = inner.remove(&id).unwrap();
                    assert(out == current[id]);
                    let accepted = out.offer(frame);
                    inner.insert(id, out);
                    assert(inner@[id].offered() == before@[id].offered().push(frame@));
                    assert(forall|c: u128| c != id && current.contains_key(c) ==> #[trigger] inner@[c] == current[c]);
                    let ghost prior = report@;
                    report.push(Delivery { connection: id, accepted });
                    proof {
                        assert(delivered_to(report@) =~= delivered_to(prior).push(id));
                        assert(ids@.take(i + 1) =~= ids@.take(i as int).push(id));
                        assert(inner@.dom() =~= before@.dom());
                        assert(delivered_to(report@) =~= ids@.take(i + 1));
                        assert forall|j: int| 0 <= j < ids.len() && j != i implies #[trigger] ids@[j] != id by {
                        }
                    }
                    i = i + 1;
                }
                self.groups.insert(group, inner);
                proof {
                    assert(ids@.take(ids.len() as int) =~= ids@);
                    ids@.unique_seq_to_set();
                    assert(queue_view(before).dom() =~= before@.dom());
                    assert forall|c: u128| before@.contains_key(c) implies #[trigger] inner@[c].offered()
                        == before@[c].offered().push(frame@) by {
                        assert(ids@.to_set().contains(c));
                        let j = ids@.index_of(c);
                    }
                    assert(queue_view(inner) =~= queue_view(before).map_values(
                        |log: Seq<Seq<char>>| log.push(frame@),
                    ));
                    assert(self@ =~= offer_to_group(m, group, frame@));
                }
                report
            },
        }
    }

    /// The number of connections registered under `group`, for diagnostics.
    pub fn snapshot(&self, group: i32) -> (n: usize)
        requires
            self.wf(),
        ensures
            n == count_in(self@, group),
    {
        match self.groups.get(&group) {
            Some(inner) => {
                proof {
                    assert(queue_view(*inner).dom() =~= inner@.dom());
                }
                inner.len()
            },
            None => 0,
        }
    }

    /// Removes the entry `group`/`id`, dropping the group once it is empty.
    /// Absence is no error: the call then changes nothing.
    pub fn deregister(&mut self, group: i32, id: u128) -> (removed: bool)
        requires
            old(self).wf(),
        ensures
            final(self).wf(),
            final(self)@ == without(old(self)@, group, id),
            removed == recipients(old(self)@, group).contains(id),
    {
        match self.groups.remove(&group) {
            None => false,
            Some(mut inner) => {
                let ghost before = inner;
                let removed = match inner.remove(&id) {
                    Some(_) => {
                        self.homes.remove(&id);
                        true
                    },
                    None => false,
                };
                if !inner.is_empty() {
                    self.groups.insert(group, inner);
                }
                proof {
                    let m = old(self)@;
                    assert(m.contains_key(group));
                    assert(m[group] == queue_view(before));
                    assert(queue_view(inner) =~= queue_view(before).remove(id));
                    assert(queue_view(inner).dom() =~= inner@.dom());
                    if removed {
                        if inner@.is_empty() {
                            assert(m[group].remove(id).is_empty());
                            assert(self@ =~= m.remove(group));
                        } else {
                            assert(!m[group].remove(id).is_empty());
                            assert(self@ =~= m.insert(group, m[group].remove(id)));
                        }
                    } else {
                        assert(inner@ == before@);
                        assert(self@ =~= m);
                    }
                }
                removed
            },
        }
    }
}

} // verus!
