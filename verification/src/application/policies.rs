//! Which peers may send without being asked about each time.

use crate::domain::ReceivePolicy;
use crate::order::{comes_before, sort_stably};
use crate::table::TextTable;
use vstd::prelude::*;

verus! {

/// The policy of one peer, as it is written down.
#[derive(Debug, PartialEq, Eq)]
pub struct StoredReceivePolicy {
    pub peer_id: String,
    pub receive_policy: ReceivePolicy,
}

/// The policies of all peers.
#[derive(Debug)]
pub struct ReceivePolicies {
    values: TextTable<ReceivePolicy>,
}

impl View for ReceivePolicies {
    type V = Map<Seq<char>, ReceivePolicy>;

    closed spec fn view(&self) -> Map<Seq<char>, ReceivePolicy> {
        self.values@
    }
}

/// The policies that a list spells: where a peer is named twice, the later
/// entry holds.
pub open spec fn loaded(items: Seq<StoredReceivePolicy>) -> Map<Seq<char>, ReceivePolicy>
    decreases items.len(),
{
    if items.len() == 0 {
        Map::empty()
    } else {
        loaded(items.drop_last()).insert(items.last().peer_id@, items.last().receive_policy)
    }
}

/// The policy that holds for a peer: unless another was set, it is asked about
/// every time.
pub open spec fn policy_of(policies: Map<Seq<char>, ReceivePolicy>, peer_id: Seq<char>) -> ReceivePolicy {
    if policies.contains_key(peer_id) {
        policies[peer_id]
    } else {
        ReceivePolicy::AskEveryTime
    }
}

/// Whether a list spells policies with every peer once, in the order of the
/// peers' identifiers.
pub open spec fn listed(
    items: Seq<StoredReceivePolicy>,
    policies: Map<Seq<char>, ReceivePolicy>,
) -> bool {
    &&& forall|left: int, right: int|
        0 <= left < right < items.len() ==> crate::order::text_before(
            (#[trigger] items[left]).peer_id@,
            (#[trigger] items[right]).peer_id@,
        )
    &&& forall|place: int|
        0 <= place < items.len() ==> policies.contains_key((#[trigger] items[place]).peer_id@)
            && policies[items[place].peer_id@] == items[place].receive_policy
    &&& forall|peer_id: Seq<char>| #[trigger]
        policies.contains_key(peer_id) ==> exists|place: int|
            0 <= place < items.len() && (#[trigger] items[place]).peer_id@ == peer_id
}

impl ReceivePolicies {
    pub closed spec fn wf(self) -> bool {
        self.values.wf()
    }

    /// No policy set for any peer.
    pub fn new() -> (policies: ReceivePolicies)
        ensures
            policies.wf(),
            policies@ == Map::<Seq<char>, ReceivePolicy>::empty(),
    {
        ReceivePolicies { values: TextTable::new() }
    }

    /// The policies that were written down.
    pub fn load(items: &Vec<StoredReceivePolicy>) -> (policies: ReceivePolicies)
        ensures
            policies.wf(),
            policies@ == loaded(items@),
    {
        let mut values: TextTable<ReceivePolicy> = TextTable::new();
        let mut index: usize = 0;
        assert(items@.take(0) =~= Seq::empty());
        while index < items.len()
            invariant
                index <= items@.len(),
                values.wf(),
                values@ == loaded(items@.take(index as int)),
            decreases items@.len() - index,
        {
            proof {
                assert(items@.take(index + 1).drop_last() =~= items@.take(index as int));
            }
            values.insert(items[index].peer_id.clone(), items[index].receive_policy);
            index += 1;
        }
        assert(items@.take(items@.len() as int) =~= items@);
        ReceivePolicies { values }
    }

    /// The policy that holds for a peer.
    pub fn policy(&self, peer_id: &str) -> (policy: ReceivePolicy)
        requires
            self.wf(),
        ensures
            policy == policy_of(self@, peer_id@),
    {
        match self.values.get(peer_id) {
            Some(policy) => *policy,
            None => ReceivePolicy::AskEveryTime,
        }
    }

    /// Sets the policy of a peer.
    pub fn set_policy(&mut self, peer_id: &str, policy: ReceivePolicy)
        requires
            old(self).wf(),
        ensures
            final(self).wf(),
            final(self)@ == old(self)@.insert(peer_id@, policy),
    {
        self.values.insert(peer_id.to_owned(), policy);
    }

    /// The policies as they are written down.
    pub fn items(&self) -> (items: Vec<StoredReceivePolicy>)
        requires
            self.wf(),
        ensures
            listed(items@, self@),
    {
        let mut items: Vec<StoredReceivePolicy> = Vec::new();
        let mut place: usize = 0;
        while place < self.values.len()
            invariant
                self.wf(),
                place <= self.values.keys().len(),
                items@.len() == place,
                forall|earlier: int|
                    0 <= earlier < place ==> {
                        &&& (#[trigger] items@[earlier]).peer_id@ == self.values.keys()[earlier]
                        &&& self@.contains_key(items@[earlier].peer_id@)
                        &&& self@[items@[earlier].peer_id@] == items@[earlier].receive_policy
                    },
            decreases self.values.keys().len() - place,
        {
            let peer_id = self.values.key_at(place).to_owned();
            let receive_policy = *self.values.value_at(place);
            items.push(StoredReceivePolicy { peer_id, receive_policy });
            place += 1;
        }
        let ghost unsorted = items@;
        let earlier = |one: &StoredReceivePolicy, other: &StoredReceivePolicy| -> (result: bool)
            ensures
                result == crate::order::text_before(one.peer_id@, other.peer_id@),
            { comes_before(one.peer_id.as_str(), other.peer_id.as_str()) };
        sort_stably(&mut items, earlier);
        proof {
            let before = |one: StoredReceivePolicy, other: StoredReceivePolicy|
                crate::order::text_before(one.peer_id@, other.peer_id@);
            assert(crate::order::decides(earlier, before));
            crate::order::texts_are_ordered();
            let order = |one: Seq<char>, other: Seq<char>| crate::order::text_before(one, other);
            assert forall|item: StoredReceivePolicy| !#[trigger] before(item, item) by {
                assert(!order(item.peer_id@, item.peer_id@));
            }
            assert forall|a: StoredReceivePolicy, b: StoredReceivePolicy, c: StoredReceivePolicy|
                #[trigger] before(a, b) && !#[trigger] before(c, b) implies before(a, c) by {
                assert(order(a.peer_id@, b.peer_id@) && !order(c.peer_id@, b.peer_id@));
            }
            assert forall|a: StoredReceivePolicy, b: StoredReceivePolicy, c: StoredReceivePolicy|
                #[trigger] before(a, b) && #[trigger] before(b, c) implies before(a, c) by {
                assert(order(a.peer_id@, b.peer_id@) && order(b.peer_id@, c.peer_id@));
            }
            crate::order::sorting_is_stable(unsorted, before);
            self.sorted_items_are_listed(unsorted, items@, before);
        }
        items
    }

    proof fn sorted_items_are_listed(
        self,
        unsorted: Seq<StoredReceivePolicy>,
        sorted: Seq<StoredReceivePolicy>,
        before: spec_fn(StoredReceivePolicy, StoredReceivePolicy) -> bool,
    )
        requires
            self.wf(),
            before == (|one: StoredReceivePolicy, other: StoredReceivePolicy|
                crate::order::text_before(one.peer_id@, other.peer_id@)),
            sorted.to_multiset() == unsorted.to_multiset(),
            sorted.len() == unsorted.len(),
            crate::order::in_order(sorted, before),
            unsorted.len() == self.values.keys().len(),
            forall|place: int|
                0 <= place < unsorted.len() ==> {
                    &&& (#[trigger] unsorted[place]).peer_id@ == self.values.keys()[place]
                    &&& self@.contains_key(unsorted[place].peer_id@)
                    &&& self@[unsorted[place].peer_id@] == unsorted[place].receive_policy
                },
        ensures
            listed(sorted, self@),
    {
        broadcast use vstd::seq_lib::group_to_multiset_ensures;

        self.values.keys_are_the_domain();
        crate::order::texts_are_ordered();
        assert forall|left: int, right: int|
            0 <= left < unsorted.len() && 0 <= right < unsorted.len() && left
                != right implies #[trigger] unsorted[left] != #[trigger] unsorted[right] by {
            assert(unsorted[left].peer_id@ != unsorted[right].peer_id@);
        }
        assert(unsorted.no_duplicates());
        unsorted.lemma_multiset_has_no_duplicates();
        assert forall|item: StoredReceivePolicy| #[trigger]
            sorted.to_multiset().contains(item) implies sorted.to_multiset().count(item) == 1 by {
            assert(unsorted.to_multiset().contains(item));
        }
        sorted.lemma_multiset_has_no_duplicates_conv();
        assert forall|place: int| 0 <= place < sorted.len() implies unsorted.contains(
            #[trigger] sorted[place],
        ) by {
            assert(sorted.contains(sorted[place]));
            assert(sorted.to_multiset().count(sorted[place]) > 0);
        }
        assert forall|left: int, right: int|
            0 <= left < right < sorted.len() implies crate::order::text_before(
            (#[trigger] sorted[left]).peer_id@,
            (#[trigger] sorted[right]).peer_id@,
        ) by {
            assert(!before(sorted[right], sorted[left]));
            let one = choose|one: int| 0 <= one < unsorted.len() && unsorted[one] == sorted[left];
            let other = choose|other: int|
                0 <= other < unsorted.len() && unsorted[other] == sorted[right];
            assert(sorted[left] != sorted[right]);
            assert(one != other);
            assert(self.values.keys()[one] != self.values.keys()[other]);
        }
        assert forall|peer_id: Seq<char>| #[trigger] self@.contains_key(peer_id) implies exists|
            place: int,
        |
            0 <= place < sorted.len() && (#[trigger] sorted[place]).peer_id@ == peer_id by {
            assert(self.values.keys().contains(peer_id));
            let other = choose|other: int|
                0 <= other < self.values.keys().len() && self.values.keys()[other] == peer_id;
            assert(unsorted[other].peer_id@ == peer_id);
            assert(unsorted.contains(unsorted[other]));
            assert(unsorted.to_multiset().count(unsorted[other]) > 0);
            assert(sorted.contains(unsorted[other]));
        }
    }
}

/// What is written down of policies reads back as the same policies.
pub proof fn policies_read_back(
    items: Seq<StoredReceivePolicy>,
    policies: Map<Seq<char>, ReceivePolicy>,
)
    requires
        listed(items, policies),
    ensures
        loaded(items) == policies,
{
    loaded_is_the_last_entry(items);
    crate::order::texts_are_ordered();
    assert forall|peer_id: Seq<char>| loaded(items).contains_key(peer_id)
        == policies.contains_key(peer_id) by {
        if loaded(items).contains_key(peer_id) {
            let place = choose|place: int|
                0 <= place < items.len() && (#[trigger] items[place]).peer_id@ == peer_id;
            assert(policies.contains_key(items[place].peer_id@));
        }
    }
    assert forall|peer_id: Seq<char>| #[trigger] loaded(items).contains_key(peer_id) implies loaded(
        items,
    )[peer_id] == policies[peer_id] by {
        let place = choose|place: int|
            0 <= place < items.len() && (#[trigger] items[place]).peer_id@ == peer_id
                && items[place].receive_policy == loaded(items)[peer_id];
        assert(policies[items[place].peer_id@] == items[place].receive_policy);
    }
    assert(loaded(items) =~= policies);
}

proof fn loaded_is_the_last_entry(items: Seq<StoredReceivePolicy>)
    ensures
        forall|peer_id: Seq<char>| #[trigger]
            loaded(items).contains_key(peer_id) <==> exists|place: int|
                0 <= place < items.len() && (#[trigger] items[place]).peer_id@ == peer_id,
        forall|peer_id: Seq<char>| #[trigger]
            loaded(items).contains_key(peer_id) ==> exists|place: int|
                0 <= place < items.len() && (#[trigger] items[place]).peer_id@ == peer_id
                    && items[place].receive_policy == loaded(items)[peer_id],
    decreases items.len(),
{
    if items.len() > 0 {
        let front = items.drop_last();
        loaded_is_the_last_entry(front);
        assert(items[items.len() - 1] == items.last());
        assert forall|peer_id: Seq<char>| #[trigger]
            loaded(items).contains_key(peer_id) implies exists|place: int|
            0 <= place < items.len() && (#[trigger] items[place]).peer_id@ == peer_id
                && items[place].receive_policy == loaded(items)[peer_id] by {
            if peer_id != items.last().peer_id@ {
                assert(loaded(front).contains_key(peer_id));
                let place = choose|place: int|
                    0 <= place < front.len() && (#[trigger] front[place]).peer_id@ == peer_id
                        && front[place].receive_policy == loaded(front)[peer_id];
                assert(items[place] == front[place]);
            }
        }
        assert forall|peer_id: Seq<char>|
            (exists|place: int|
                0 <= place < items.len() && (#[trigger] items[place]).peer_id@ == peer_id)
                implies #[trigger] loaded(items).contains_key(peer_id) by {
            let place = choose|place: int|
                0 <= place < items.len() && (#[trigger] items[place]).peer_id@ == peer_id;
            if place < front.len() {
                assert(front[place].peer_id@ == peer_id);
                assert(loaded(front).contains_key(peer_id));
            }
        }
    }
}

/// A policy that was set for a peer holds for it until another is set, and for
/// no other peer; a peer for which none was set is asked about every time. So
/// does one that was written down, the last where there are several.
pub proof fn the_last_policy_set_holds(
    policies: Map<Seq<char>, ReceivePolicy>,
    items: Seq<StoredReceivePolicy>,
    item: StoredReceivePolicy,
    other: Seq<char>,
)
    ensures
        policy_of(Map::empty(), other) == ReceivePolicy::AskEveryTime,
        policy_of(policies.insert(item.peer_id@, item.receive_policy), item.peer_id@)
            == item.receive_policy,
        other != item.peer_id@ ==> policy_of(
            policies.insert(item.peer_id@, item.receive_policy),
            other,
        ) == policy_of(policies, other),
        policy_of(loaded(Seq::empty()), other) == ReceivePolicy::AskEveryTime,
        policy_of(loaded(items.push(item)), item.peer_id@) == item.receive_policy,
        other != item.peer_id@ ==> policy_of(loaded(items.push(item)), other) == policy_of(
            loaded(items),
            other,
        ),
{
    assert(items.push(item).drop_last() =~= items);
}

} // verus!
