//! The peers that the service knows, and the policies set for them.

use super::{ManagerModel, TransferManager};
use crate::application::policies::{policy_of, StoredReceivePolicy};
use crate::application::trust::{Trust, TrustModel};
use crate::domain::peer::PeerModel;
use crate::domain::transfer::{peer_models, transfer_models, SnapshotModel, TransferModel};
use crate::domain::{NearbyPeer, ReceivePolicy, TransferSnapshot};
use crate::error::{ErrorModel, TransferError};
use crate::infrastructure::encoding::{
    base64_bytes, base64_fits, base64_text, decode_key, encode_key,
};
use crate::order::{comes_before, sort_stably, text_before};
use crate::text::{same_text, texts};
use vstd::prelude::*;
use vstd::string::*;

verus! {

/// The place of the first peer with that identifier.
pub open spec fn first_peer(peers: Seq<PeerModel>, id: Seq<char>) -> Option<int>
    decreases peers.len(),
{
    if peers.len() == 0 {
        None
    } else {
        match first_peer(peers.drop_last(), id) {
            Some(place) => Some(place),
            None => if peers.last().id == id {
                Some(peers.len() - 1)
            } else {
                None
            },
        }
    }
}

/// What [`first_peer`] finds, and what it means that it finds nothing.
pub proof fn first_peer_is_first(peers: Seq<PeerModel>, id: Seq<char>)
    ensures
        match first_peer(peers, id) {
            Some(place) => {
                &&& 0 <= place < peers.len()
                &&& peers[place].id == id
                &&& forall|earlier: int|
                    0 <= earlier < place ==> (#[trigger] peers[earlier]).id != id
            },
            None => forall|place: int|
                0 <= place < peers.len() ==> (#[trigger] peers[place]).id != id,
        },
    decreases peers.len(),
{
    if peers.len() > 0 {
        let shorter = peers.drop_last();
        first_peer_is_first(shorter, id);
        assert forall|place: int| 0 <= place < shorter.len() implies shorter[place]
            == #[trigger] peers[place] by {}
    }
}

proof fn first_peer_extends(peers: Seq<PeerModel>, id: Seq<char>, length: int)
    requires
        0 <= length <= peers.len(),
        first_peer(peers.take(length), id) is Some,
    ensures
        first_peer(peers, id) == first_peer(peers.take(length), id),
    decreases peers.len(),
{
    if length == peers.len() {
        assert(peers.take(length) =~= peers);
    } else {
        assert(peers.drop_last().take(length) =~= peers.take(length));
        first_peer_extends(peers.drop_last(), id, length);
    }
}

/// Whether one peer is named before another.
pub open spec fn named_before(one: PeerModel, other: PeerModel) -> bool {
    text_before(one.name, other.name)
}

/// The peers with one more, in the order of their names.
pub open spec fn with_newcomer(peers: Seq<PeerModel>, peer: PeerModel) -> Seq<PeerModel> {
    crate::order::stably_sorted(
        peers.push(peer),
        |one: PeerModel, other: PeerModel| named_before(one, other),
    )
}

/// The peers other than the one with that identifier.
pub open spec fn without_peer(peers: Seq<PeerModel>, id: Seq<char>) -> Seq<PeerModel>
    decreases peers.len(),
{
    if peers.len() == 0 {
        Seq::empty()
    } else if peers.last().id == id {
        without_peer(peers.drop_last(), id)
    } else {
        without_peer(peers.drop_last(), id).push(peers.last())
    }
}

/// Whether a transfer with a peer is going on.
pub open spec fn busy_with(transfers: Seq<TransferModel>, peer_id: Seq<char>) -> bool {
    exists|place: int|
        0 <= place < transfers.len() && (#[trigger] transfers[place]).peer_id == peer_id
            && !transfers[place].status.over()
}

/// The addresses with one more, unless it is among them.
pub open spec fn with_address(addresses: Seq<Seq<char>>, address: Seq<char>) -> Seq<Seq<char>> {
    if addresses.contains(address) {
        addresses
    } else {
        addresses.push(address)
    }
}

/// What an incoming connection shows of a peer.
pub struct ObservedModel {
    pub id: Seq<char>,
    pub name: Seq<char>,
    pub public_key: Seq<u8>,
    pub address: Seq<char>,
}

impl ManagerModel {
    /// The service after its list of peers has changed.
    pub open spec fn with_peers(self, peers: Seq<PeerModel>) -> ManagerModel {
        ManagerModel { state: SnapshotModel { peers, ..self.state }, ..self }
    }

    /// Whether a peer that is paired may send without being asked about.
    pub open spec fn automatic(self, peer_id: Seq<char>, paired: bool) -> bool {
        paired && policy_of(self.policies, peer_id) == ReceivePolicy::Automatic
    }

    /// The service after a peer has been found on the network: where it was
    /// known it is replaced, otherwise it takes its place by name. Whether it
    /// is trusted depends on its key and never on what it says.
    pub open spec fn upserted(self, peer: PeerModel, trust: TrustModel) -> Result<
        ManagerModel,
        ErrorModel,
    > {
        if peer.id == self.device_id() {
            Ok(self)
        } else {
            match base64_bytes(peer.public_key) {
                None => Err(ErrorModel::Invalid("invalid peer public key"@)),
                Some(key) => self.upserted_under(peer, key, trust),
            }
        }
    }

    /// The service after another device has been found on the network, under
    /// the key that its record holds.
    pub open spec fn upserted_under(
        self,
        peer: PeerModel,
        key: Seq<u8>,
        trust: TrustModel,
    ) -> Result<ManagerModel, ErrorModel> {
        match trust.paired(Some(key)) {
            Err(error) => Err(error),
            Ok(paired) => {
                let known = PeerModel {
                    paired,
                    automatic_receive: self.automatic(peer.id, paired),
                    ..peer
                };
                let peers = match first_peer(self.state.peers, peer.id) {
                    Some(place) => self.state.peers.update(place, known),
                    None => with_newcomer(self.state.peers, known),
                };
                Ok(self.with_peers(peers).emitted())
            },
        }
    }

    /// A known peer after a connection from it: how it can be reached, and
    /// what device it is, stay as the network announced them.
    pub open spec fn reobserved(
        self,
        known: PeerModel,
        observed: ObservedModel,
        key_text: Seq<char>,
        paired: bool,
        now_ms: i64,
    ) -> PeerModel {
        PeerModel {
            name: observed.name,
            public_key: key_text,
            address: observed.address,
            addresses: with_address(known.addresses, observed.address),
            paired,
            automatic_receive: self.automatic(observed.id, paired),
            last_seen_at_ms: now_ms,
            ..known
        }
    }

    /// An unknown peer after a connection from it. The port from which it
    /// called is not the one on which it listens, so it has none.
    pub open spec fn newly_observed(
        self,
        observed: ObservedModel,
        key_text: Seq<char>,
        paired: bool,
        now_ms: i64,
    ) -> PeerModel {
        PeerModel {
            id: observed.id,
            name: observed.name,
            platform: "ArcRelay"@,
            model: "LAN device"@,
            address: observed.address,
            addresses: seq![observed.address],
            port: 0,
            public_key: key_text,
            certificate_sha256: Seq::empty(),
            paired,
            automatic_receive: self.automatic(observed.id, paired),
            last_seen_at_ms: now_ms,
        }
    }

    /// The service after a connection from a peer, whose key reads `key_text`.
    pub open spec fn observed(
        self,
        observed: ObservedModel,
        key_text: Seq<char>,
        trust: TrustModel,
        now_ms: i64,
    ) -> Result<ManagerModel, ErrorModel> {
        if observed.id == self.device_id() {
            Ok(self)
        } else {
            match trust.paired(Some(observed.public_key)) {
                Err(error) => Err(error),
                Ok(paired) => {
                    let peers = match first_peer(self.state.peers, observed.id) {
                        Some(place) => self.state.peers.update(
                            place,
                            self.reobserved(
                                self.state.peers[place],
                                observed,
                                key_text,
                                paired,
                                now_ms,
                            ),
                        ),
                        None => with_newcomer(
                            self.state.peers,
                            self.newly_observed(observed, key_text, paired, now_ms),
                        ),
                    };
                    Ok(self.with_peers(peers).emitted())
                },
            }
        }
    }

    /// The service after a peer has left the network: it is forgotten, unless
    /// a transfer with it is going on.
    pub open spec fn removed(self, peer_id: Seq<char>) -> ManagerModel {
        if busy_with(self.state.transfers, peer_id) {
            self
        } else {
            self.with_peers(without_peer(self.state.peers, peer_id)).emitted()
        }
    }

    /// The service after a policy has been set for a peer.
    pub open spec fn with_policy(self, peer_id: Seq<char>, policy: ReceivePolicy) -> ManagerModel {
        ManagerModel { policies: self.policies.insert(peer_id, policy), ..self }
    }

    /// The service after the policy of a peer is shown.
    pub open spec fn with_policy_shown(self, peer_id: Seq<char>, automatic: bool) -> ManagerModel {
        let peers = match first_peer(self.state.peers, peer_id) {
            Some(place) => self.state.peers.update(
                place,
                PeerModel { automatic_receive: automatic, ..self.state.peers[place] },
            ),
            None => self.state.peers,
        };
        self.with_peers(peers).emitted()
    }
}

/// What a person's choice for a peer comes to.
pub open spec fn chosen_policy(automatic: bool) -> ReceivePolicy {
    if automatic {
        ReceivePolicy::Automatic
    } else {
        ReceivePolicy::AskEveryTime
    }
}

fn holds_text(list: &Vec<String>, wanted: &str) -> (found: bool)
    ensures
        found == texts(list@).contains(wanted@),
{
    let mut index: usize = 0;
    while index < list.len()
        invariant
            index <= list@.len(),
            forall|place: int| 0 <= place < index ==> #[trigger] texts(list@)[place] != wanted@,
        decreases list@.len() - index,
    {
        assert(texts(list@)[index as int] == list@[index as int]@);
        if same_text(list[index].as_str(), wanted) {
            return true;
        }
        index += 1;
    }
    false
}

impl TransferManager {
    fn find_peer(&self, id: &str) -> (place: Option<usize>)
        ensures
            match place {
                Some(place) => first_peer(self@.state.peers, id@) == Some(place as int) && place
                    < self.state.peers@.len(),
                None => first_peer(self@.state.peers, id@) is None,
            },
    {
        let ghost models = peer_models(self.state.peers@);
        let mut place: usize = 0;
        assert(models.take(0) =~= Seq::empty());
        while place < self.state.peers.len()
            invariant
                place <= self.state.peers@.len(),
                models == peer_models(self.state.peers@),
                first_peer(models.take(place as int), id@) is None,
            decreases self.state.peers@.len() - place,
        {
            proof {
                assert(models.take(place + 1).drop_last() =~= models.take(place as int));
                assert(models.take(place + 1).last() == self.state.peers@[place as int]@);
            }
            if same_text(self.state.peers[place].id.as_str(), id) {
                proof {
                    first_peer_extends(models, id@, place + 1);
                }
                return Some(place);
            }
            place += 1;
        }
        assert(models.take(models.len() as int) =~= models);
        None
    }

    /// A peer that the service knows.
    pub fn peer(&self, id: &str) -> (result: Result<NearbyPeer, TransferError>)
        ensures
            match result {
                Ok(peer) => first_peer(self@.state.peers, id@) matches Some(place) && peer@
                    == self@.state.peers[place],
                Err(error) => first_peer(self@.state.peers, id@) is None && error@
                    == ErrorModel::PeerNotFound(id@),
            },
    {
        match self.find_peer(id) {
            Some(place) => Ok(self.state.peers[place].clone()),
            None => Err(TransferError::PeerNotFound(id.to_owned())),
        }
    }

    fn add_peer(&mut self, peer: NearbyPeer)
        requires
            old(self).wf(),
        ensures
            final(self).wf(),
            final(self)@ == old(self)@.with_peers(with_newcomer(old(self)@.state.peers, peer@)),
    {
        let ghost before = self@;
        self.state.peers.push(peer);
        let ghost unsorted = self.state.peers@;
        let earlier = |one: &NearbyPeer, other: &NearbyPeer| -> (result: bool)
            ensures
                result == named_before(one@, other@),
            { comes_before(one.name.as_str(), other.name.as_str()) };
        sort_stably(&mut self.state.peers, earlier);
        proof {
            let order = |one: NearbyPeer, other: NearbyPeer| named_before(one@, other@);
            assert(crate::order::decides(earlier, order));
            crate::order::sorting_commutes_with_values(
                unsorted,
                order,
                |peer: NearbyPeer| peer@,
                |one: PeerModel, other: PeerModel| named_before(one, other),
            );
            assert(peer_models(unsorted) =~= before.state.peers.push(peer@));
        }
    }

    fn is_automatic(&self, peer_id: &str, paired: bool) -> (automatic: bool)
        requires
            self.wf(),
        ensures
            automatic == self@.automatic(peer_id@, paired),
    {
        paired && self.policies.policy(peer_id) == ReceivePolicy::Automatic
    }

    /// The policy that holds for a peer.
    pub fn receive_policy(&self, peer_id: &str) -> (policy: ReceivePolicy)
        requires
            self.wf(),
        ensures
            policy == policy_of(self@.policies, peer_id@),
    {
        self.policies.policy(peer_id)
    }

    /// Takes in a device that was found on the network, given the key that its
    /// record holds.
    pub fn upsert_peer_under(&mut self, peer: NearbyPeer, key: &Vec<u8>, trust: &Trust) -> (result:
        Result<(), TransferError>)
        requires
            old(self).wf(),
        ensures
            final(self).wf(),
            match result {
                Ok(_) => old(self)@.upserted_under(peer@, key@, trust@) == Ok::<_, ErrorModel>(
                    final(self)@,
                ),
                Err(error) => {
                    &&& old(self)@.upserted_under(peer@, key@, trust@) == Err::<ManagerModel, _>(
                        error@,
                    )
                    &&& final(self)@ == old(self)@
                },
            },
    {
        let ghost before = self@;
        let paired = match trust.is_paired_peer(Some(key)) {
            Ok(paired) => paired,
            Err(error) => {
                return Err(error);
            },
        };
        let mut peer = peer;
        peer.paired = paired;
        peer.automatic_receive = self.is_automatic(peer.id.as_str(), paired);
        match self.find_peer(peer.id.as_str()) {
            Some(place) => {
                self.state.peers.set(place, peer);
                assert(self@.state.peers =~= before.state.peers.update(place as int, peer@));
            },
            None => {
                self.add_peer(peer);
            },
        }
        self.emit_snapshot();
        Ok(())
    }

    /// Takes in a device that was found on the network.
    pub fn upsert_peer(&mut self, peer: NearbyPeer, trust: &Trust) -> (result: Result<
        (),
        TransferError,
    >)
        requires
            old(self).wf(),
        ensures
            final(self).wf(),
            match result {
                Ok(_) => old(self)@.upserted(peer@, trust@) == Ok::<_, ErrorModel>(final(self)@),
                Err(error) => {
                    &&& old(self)@.upserted(peer@, trust@) == Err::<ManagerModel, _>(error@)
                    &&& final(self)@ == old(self)@
                },
            },
    {
        if same_text(peer.id.as_str(), self.device_id().as_str()) {
            return Ok(());
        }
        let key = match decode_key(peer.public_key.as_str()) {
            Ok(key) => key,
            Err(error) => {
                return Err(error);
            },
        };
        self.upsert_peer_under(peer, &key, trust)
    }

    /// Takes in what a connection from a peer shows, given how its key reads.
    pub fn observe_incoming_peer_as(
        &mut self,
        peer_id: &str,
        peer_name: &str,
        public_key: &Vec<u8>,
        key_text: String,
        observed_ip: &str,
        trust: &Trust,
        now_ms: i64,
    ) -> (result: Result<(), TransferError>)
        requires
            old(self).wf(),
        ensures
            final(self).wf(),
            match result {
                Ok(_) => old(self)@.observed(
                    ObservedModel {
                        id: peer_id@,
                        name: peer_name@,
                        public_key: public_key@,
                        address: observed_ip@,
                    },
                    key_text@,
                    trust@,
                    now_ms,
                ) == Ok::<_, ErrorModel>(final(self)@),
                Err(error) => {
                    &&& old(self)@.observed(
                        ObservedModel {
                            id: peer_id@,
                            name: peer_name@,
                            public_key: public_key@,
                            address: observed_ip@,
                        },
                        key_text@,
                        trust@,
                        now_ms,
                    ) == Err::<ManagerModel, _>(error@)
                    &&& final(self)@ == old(self)@
                },
            },
    {
        let ghost before = self@;
        if same_text(peer_id, self.device_id().as_str()) {
            return Ok(());
        }
        let paired = match trust.is_paired_peer(Some(public_key)) {
            Ok(paired) => paired,
            Err(error) => {
                return Err(error);
            },
        };
        let automatic = self.is_automatic(peer_id, paired);
        match self.find_peer(peer_id) {
            Some(place) => {
                let mut peer = self.state.peers[place].clone();
                peer.name = peer_name.to_owned();
                peer.public_key = key_text;
                peer.address = observed_ip.to_owned();
                if !holds_text(&peer.addresses, observed_ip) {
                    let ghost listed = texts(peer.addresses@);
                    peer.addresses.push(observed_ip.to_owned());
                    assert(texts(peer.addresses@) =~= listed.push(observed_ip@));
                }
                peer.paired = paired;
                peer.automatic_receive = automatic;
                peer.last_seen_at_ms = now_ms;
                self.state.peers.set(place, peer);
                assert(self@.state.peers =~= before.state.peers.update(place as int, peer@));
            },
            None => {
                let addresses: Vec<String> = vec![observed_ip.to_owned()];
                assert(texts(addresses@) =~= seq![observed_ip@]);
                let certificate = String::new();
                assert(certificate@ =~= Seq::empty());
                self.add_peer(
                    NearbyPeer {
                        id: peer_id.to_owned(),
                        name: peer_name.to_owned(),
                        platform: "ArcRelay".to_owned(),
                        model: "LAN device".to_owned(),
                        address: observed_ip.to_owned(),
                        addresses,
                        port: 0,
                        public_key: key_text,
                        certificate_sha256: certificate,
                        paired,
                        automatic_receive: automatic,
                        last_seen_at_ms: now_ms,
                    },
                );
            },
        }
        self.emit_snapshot();
        Ok(())
    }

    /// Takes in what a connection from a peer shows.
    pub fn observe_incoming_peer(
        &mut self,
        peer_id: &str,
        peer_name: &str,
        public_key: &Vec<u8>,
        observed_ip: &str,
        trust: &Trust,
        now_ms: i64,
    ) -> (result: Result<(), TransferError>)
        requires
            old(self).wf(),
            base64_fits(public_key@.len()),
        ensures
            final(self).wf(),
            match result {
                Ok(_) => old(self)@.observed(
                    ObservedModel {
                        id: peer_id@,
                        name: peer_name@,
                        public_key: public_key@,
                        address: observed_ip@,
                    },
                    base64_text(public_key@),
                    trust@,
                    now_ms,
                ) == Ok::<_, ErrorModel>(final(self)@),
                Err(error) => {
                    &&& old(self)@.observed(
                        ObservedModel {
                            id: peer_id@,
                            name: peer_name@,
                            public_key: public_key@,
                            address: observed_ip@,
                        },
                        base64_text(public_key@),
                        trust@,
                        now_ms,
                    ) == Err::<ManagerModel, _>(error@)
                    &&& final(self)@ == old(self)@
                },
            },
    {
        let key_text = encode_key(public_key.as_slice());
        self.observe_incoming_peer_as(
            peer_id,
            peer_name,
            public_key,
            key_text,
            observed_ip,
            trust,
            now_ms,
        )
    }

    fn is_busy_with(&self, peer_id: &str) -> (busy: bool)
        ensures
            busy == busy_with(self@.state.transfers, peer_id@),
    {
        let ghost models = transfer_models(self.state.transfers@);
        let mut place: usize = 0;
        while place < self.state.transfers.len()
            invariant
                place <= self.state.transfers@.len(),
                models == transfer_models(self.state.transfers@),
                forall|earlier: int|
                    0 <= earlier < place ==> !((#[trigger] models[earlier]).peer_id == peer_id@
                        && !models[earlier].status.over()),
            decreases self.state.transfers@.len() - place,
        {
            assert(models[place as int] == self.state.transfers@[place as int]@);
            if same_text(self.state.transfers[place].peer_id.as_str(), peer_id)
                && !self.state.transfers[place].status.terminal() {
                return true;
            }
            place += 1;
        }
        false
    }

    /// Forgets a peer that has left the network, unless a transfer with it is
    /// going on.
    pub fn remove_peer(&mut self, peer_id: &str)
        requires
            old(self).wf(),
        ensures
            final(self).wf(),
            final(self)@ == old(self)@.removed(peer_id@),
    {
        if self.is_busy_with(peer_id) {
            return;
        }
        let ghost before = self@;
        let ghost given = before.state.peers;
        let count = self.state.peers.len();
        let mut seen: usize = 0;
        let mut kept: usize = 0;
        assert(given.take(0) =~= Seq::empty());
        while seen < count
            invariant
                kept <= seen <= count,
                given.len() == count,
                given == before.state.peers,
                self.state.peers@.len() == kept + (count - seen),
                peer_models(self.state.peers@).take(kept as int) == without_peer(
                    given.take(seen as int),
                    peer_id@,
                ),
                peer_models(self.state.peers@).skip(kept as int) == given.skip(seen as int),
                before.sound(),
                self.wf(),
                self@ == before.with_peers(peer_models(self.state.peers@)),
            decreases count - seen,
        {
            let ghost listed = peer_models(self.state.peers@);
            let ghost next = given.take(seen + 1);
            proof {
                assert(next.drop_last() =~= given.take(seen as int));
                assert(listed.skip(kept as int)[0] == given.skip(seen as int)[0]);
                assert(next.last() == self.state.peers@[kept as int]@);
                assert(given.skip(seen + 1) =~= given.skip(seen as int).skip(1));
            }
            if same_text(self.state.peers[kept].id.as_str(), peer_id) {
                let _ = self.state.peers.remove(kept);
                proof {
                    let now = peer_models(self.state.peers@);
                    assert(now =~= listed.remove(kept as int));
                    assert(now.take(kept as int) =~= listed.take(kept as int));
                    assert(now.skip(kept as int) =~= listed.skip(kept as int).skip(1));
                    assert(self@ == before.with_peers(now));
                    assert(self@.sound());
                }
            } else {
                proof {
                    assert(listed.take(kept + 1) =~= listed.take(kept as int).push(
                        listed[kept as int],
                    ));
                    assert(listed.skip(kept + 1) =~= listed.skip(kept as int).skip(1));
                }
                kept += 1;
            }
            seen += 1;
        }
        proof {
            assert(given.take(count as int) =~= given);
            assert(peer_models(self.state.peers@).take(kept as int) =~= peer_models(
                self.state.peers@,
            ));
        }
        self.emit_snapshot();
    }

    /// Sets whether a paired peer may send without being asked about, and hands
    /// out all policies to be written down.
    pub fn set_receive_policy(&mut self, peer_id: &str, automatic: bool, trust: &Trust) -> (result:
        Result<Vec<StoredReceivePolicy>, TransferError>)
        requires
            old(self).wf(),
        ensures
            final(self).wf(),
            match trust@.paired(None) {
                Err(error) => crate::error::outcome(result) == Err::<(), _>(error)
                    && final(self)@ == old(self)@,
                Ok(false) => crate::error::outcome(result) == Err::<(), _>(
                    ErrorModel::InvalidState("device has not completed unified pairing"@),
                ) && final(self)@ == old(self)@,
                Ok(true) => {
                    &&& final(self)@ == old(self)@.with_policy(peer_id@, chosen_policy(automatic))
                    &&& result matches Ok(items) && crate::application::policies::listed(
                        items@,
                        final(self)@.policies,
                    )
                },
            },
    {
        match trust.is_paired_peer(None) {
            Err(error) => {
                return Err(error);
            },
            Ok(paired) => {
                if !paired {
                    return Err(
                        TransferError::invalid_state("device has not completed unified pairing"),
                    );
                }
            },
        }
        let policy = if automatic {
            ReceivePolicy::Automatic
        } else {
            ReceivePolicy::AskEveryTime
        };
        self.policies.set_policy(peer_id, policy);
        Ok(self.policies.items())
    }

    /// Shows the policy of a peer once it has been written down.
    pub fn show_receive_policy(&mut self, peer_id: &str, automatic: bool) -> (snapshot:
        TransferSnapshot)
        requires
            old(self).wf(),
        ensures
            final(self).wf(),
            final(self)@ == old(self)@.with_policy_shown(peer_id@, automatic),
            snapshot@ == final(self)@.state,
    {
        let ghost before = self@;
        match self.find_peer(peer_id) {
            Some(place) => {
                self.state.peers[place].automatic_receive = automatic;
                assert(self@.state.peers =~= before.state.peers.update(
                    place as int,
                    self.state.peers@[place as int]@,
                ));
            },
            None => {},
        }
        self.emit_snapshot();
        self.snapshot()
    }
}

/// A connection from a peer that the network has announced leaves the way to
/// reach it alone: its port, its pinned certificate, its platform and model,
/// and every address that was known.
pub proof fn connection_keeps_the_endpoint(
    manager: ManagerModel,
    observed: ObservedModel,
    key_text: Seq<char>,
    trust: TrustModel,
    now_ms: i64,
)
    requires
        observed.id != manager.device_id(),
    ensures
        (manager.observed(observed, key_text, trust, now_ms), first_peer(
            manager.state.peers,
            observed.id,
        )) matches (Ok(after), Some(place)) ==> {
            let known = manager.state.peers[place];
            let peer = after.state.peers[place];
            &&& after.state.peers.len() == manager.state.peers.len()
            &&& peer.id == known.id
            &&& peer.port == known.port
            &&& peer.certificate_sha256 == known.certificate_sha256
            &&& peer.platform == known.platform
            &&& peer.model == known.model
            &&& peer.addresses.contains(observed.address)
            &&& forall|address: Seq<char>|
                known.addresses.contains(address) ==> #[trigger] peer.addresses.contains(address)
        },
{
    first_peer_is_first(manager.state.peers, observed.id);
    if let Ok(after) = manager.observed(observed, key_text, trust, now_ms) {
        if let Some(place) = first_peer(manager.state.peers, observed.id) {
            let known = manager.state.peers[place];
            let addresses = with_address(known.addresses, observed.address);
            assert(after.state.peers[place].addresses == addresses);
            if !known.addresses.contains(observed.address) {
                assert(addresses[known.addresses.len() as int] == observed.address);
            }
            assert forall|address: Seq<char>|
                known.addresses.contains(address) implies #[trigger] addresses.contains(
                address,
            ) by {
                let held = choose|held: int|
                    0 <= held < known.addresses.len() && known.addresses[held] == address;
                assert(addresses[held] == address);
            }
        }
    }
}

/// A peer may send without being asked about only while it is paired, whatever
/// it says of itself and whatever policy is set.
pub proof fn silent_peers_are_paired(manager: ManagerModel, peer_id: Seq<char>, paired: bool)
    ensures
        manager.automatic(peer_id, paired) ==> paired,
        manager.automatic(peer_id, paired) == policy_of(manager.policies, peer_id).silent(paired),
{
}

/// A peer with which a transfer is going on is not forgotten.
pub proof fn busy_peer_is_kept(manager: ManagerModel, peer_id: Seq<char>)
    requires
        busy_with(manager.state.transfers, peer_id),
    ensures
        manager.removed(peer_id) == manager,
{
}

/// A peer that is forgotten is gone, and every other peer stays.
pub proof fn only_that_peer_is_forgotten(peers: Seq<PeerModel>, id: Seq<char>)
    ensures
        forall|peer: PeerModel| #[trigger]
            without_peer(peers, id).contains(peer) <==> peers.contains(peer) && peer.id != id,
    decreases peers.len(),
{
    let kept = without_peer(peers, id);
    if peers.len() > 0 {
        let front = peers.drop_last();
        only_that_peer_is_forgotten(front, id);
        assert(front.push(peers.last()) =~= peers);
        assert forall|peer: PeerModel| #[trigger]
            kept.contains(peer) <==> peers.contains(peer) && peer.id != id by {
            if kept.contains(peer) {
                let place = choose|place: int| 0 <= place < kept.len() && kept[place] == peer;
                if place < without_peer(front, id).len() {
                    assert(without_peer(front, id)[place] == peer);
                    assert(without_peer(front, id).contains(peer));
                    let other = choose|other: int|
                        0 <= other < front.len() && front[other] == peer;
                    assert(peers[other] == peer);
                } else {
                    assert(peers[peers.len() - 1] == peer);
                }
            }
            if peers.contains(peer) && peer.id != id {
                if peer == peers.last() {
                    assert(kept[kept.len() - 1] == peer);
                } else {
                    let place = choose|place: int|
                        0 <= place < peers.len() && peers[place] == peer;
                    assert(front[place] == peer);
                    assert(without_peer(front, id).contains(peer));
                    let other = choose|other: int|
                        0 <= other < without_peer(front, id).len() && without_peer(front, id)[other]
                            == peer;
                    assert(kept[other] == peer);
                }
            }
        }
    }
}

/// Whether no two peers have the same identifier.
pub open spec fn distinct_peers(peers: Seq<PeerModel>) -> bool {
    forall|one: int, other: int|
        0 <= one < other < peers.len() ==> (#[trigger] peers[one]).id != (
        #[trigger] peers[other]).id
}

/// No peer is ever listed twice: finding one on the network, a connection from
/// one, forgetting one and showing its policy keep the identifiers distinct.
pub proof fn no_peer_is_listed_twice(
    manager: ManagerModel,
    peer: PeerModel,
    observed: ObservedModel,
    key_text: Seq<char>,
    trust: TrustModel,
    peer_id: Seq<char>,
    automatic: bool,
    now_ms: i64,
)
    requires
        distinct_peers(manager.state.peers),
    ensures
        manager.upserted(peer, trust) matches Ok(after) ==> distinct_peers(after.state.peers),
        manager.observed(observed, key_text, trust, now_ms) matches Ok(after) ==> distinct_peers(
            after.state.peers,
        ),
        distinct_peers(manager.removed(peer_id).state.peers),
        distinct_peers(manager.with_policy_shown(peer_id, automatic).state.peers),
{
    let peers = manager.state.peers;
    first_peer_is_first(peers, peer.id);
    first_peer_is_first(peers, observed.id);
    first_peer_is_first(peers, peer_id);
    if let Some(key) = base64_bytes(peer.public_key) {
        if let Ok(paired) = trust.paired(Some(key)) {
            let known = PeerModel {
                paired,
                automatic_receive: manager.automatic(peer.id, paired),
                ..peer
            };
            if first_peer(peers, peer.id) is None {
                newcomers_are_distinct(peers, known);
            }
        }
    }
    if let Ok(paired) = trust.paired(Some(observed.public_key)) {
        if first_peer(peers, observed.id) is None {
            newcomers_are_distinct(
                peers,
                manager.newly_observed(observed, key_text, paired, now_ms),
            );
        }
    }
    the_rest_is_distinct(peers, peer_id);
}

proof fn the_rest_is_distinct(peers: Seq<PeerModel>, id: Seq<char>)
    requires
        distinct_peers(peers),
    ensures
        distinct_peers(without_peer(peers, id)),
        forall|place: int|
            0 <= place < without_peer(peers, id).len() ==> peers.contains(
                #[trigger] without_peer(peers, id)[place],
            ),
    decreases peers.len(),
{
    if peers.len() > 0 {
        let front = peers.drop_last();
        let rest = without_peer(front, id);
        assert forall|one: int, other: int| 0 <= one < other < front.len() implies (
        #[trigger] front[one]).id != (#[trigger] front[other]).id by {
            assert(peers[one].id != peers[other].id);
        }
        the_rest_is_distinct(front, id);
        let kept = without_peer(peers, id);
        assert forall|place: int| 0 <= place < rest.len() implies rest[place].id
            != peers.last().id && peers.contains(#[trigger] rest[place]) by {
            let source = choose|source: int| 0 <= source < front.len() && front[source] == rest[place];
            assert(peers[source] == rest[place]);
            assert(peers[source].id != peers[peers.len() - 1].id);
        }
        assert forall|place: int| 0 <= place < kept.len() implies peers.contains(
            #[trigger] kept[place],
        ) by {
            if place < rest.len() {
                assert(kept[place] == rest[place]);
            } else {
                assert(kept[place] == peers[peers.len() - 1]);
            }
        }
    }
}

proof fn names_are_ordered()
    ensures
        crate::order::strict_weak_order(
            |one: PeerModel, other: PeerModel| named_before(one, other),
        ),
{
    let before = |one: PeerModel, other: PeerModel| named_before(one, other);
    crate::order::texts_are_ordered();
    let texts_before = |one: Seq<char>, other: Seq<char>| text_before(one, other);
    assert forall|item: PeerModel| !#[trigger] before(item, item) by {
        assert(!texts_before(item.name, item.name));
    }
    assert forall|a: PeerModel, b: PeerModel, c: PeerModel| #[trigger]
        before(a, b) && !#[trigger] before(c, b) implies before(a, c) by {
        assert(texts_before(a.name, b.name) && !texts_before(c.name, b.name));
        assert(texts_before(a.name, c.name));
    }
    assert forall|a: PeerModel, b: PeerModel, c: PeerModel| #[trigger]
        before(a, b) && #[trigger] before(b, c) implies before(a, c) by {
        assert(texts_before(a.name, b.name) && texts_before(b.name, c.name));
        assert(texts_before(a.name, c.name));
    }
}

/// A peer that is new joins the list, and nothing else changes in it but the
/// order.
pub proof fn only_the_newcomer_joins(peers: Seq<PeerModel>, peer: PeerModel)
    ensures
        forall|other: PeerModel| #[trigger]
            with_newcomer(peers, peer).contains(other) <==> peers.contains(other) || other == peer,
{
    broadcast use vstd::seq_lib::group_to_multiset_ensures;

    let before = |one: PeerModel, other: PeerModel| named_before(one, other);
    let all = peers.push(peer);
    let sorted = with_newcomer(peers, peer);
    names_are_ordered();
    crate::order::sorting_is_stable(all, before);
    assert forall|other: PeerModel| #[trigger]
        sorted.contains(other) <==> peers.contains(other) || other == peer by {
        assert(sorted.contains(other) <==> sorted.to_multiset().count(other) > 0);
        assert(all.contains(other) <==> all.to_multiset().count(other) > 0);
        if peers.contains(other) {
            let place = choose|place: int| 0 <= place < peers.len() && peers[place] == other;
            assert(all[place] == other);
        }
        assert(all[peers.len() as int] == peer);
        if all.contains(other) && other != peer {
            let place = choose|place: int| 0 <= place < all.len() && all[place] == other;
            assert(peers[place] == other);
        }
    }
}

proof fn newcomers_are_distinct(peers: Seq<PeerModel>, peer: PeerModel)
    requires
        distinct_peers(peers),
        forall|place: int| 0 <= place < peers.len() ==> (#[trigger] peers[place]).id != peer.id,
    ensures
        distinct_peers(with_newcomer(peers, peer)),
{
    broadcast use vstd::seq_lib::group_to_multiset_ensures;

    let before = |one: PeerModel, other: PeerModel| named_before(one, other);
    let all = peers.push(peer);
    let sorted = with_newcomer(peers, peer);
    names_are_ordered();
    crate::order::sorting_is_stable(all, before);
    assert(distinct_peers(all));
    assert(all.no_duplicates());
    all.lemma_multiset_has_no_duplicates();
    sorted.lemma_multiset_has_no_duplicates_conv();
    assert forall|one: int, other: int| 0 <= one < other < sorted.len() implies (
    #[trigger] sorted[one]).id != (#[trigger] sorted[other]).id by {
        assert(sorted[one] != sorted[other]);
        assert(sorted.contains(sorted[one]) && sorted.contains(sorted[other]));
        assert(all.to_multiset().contains(sorted[one]));
        assert(all.to_multiset().contains(sorted[other]));
        let first = choose|place: int| 0 <= place < all.len() && all[place] == sorted[one];
        let second = choose|place: int| 0 <= place < all.len() && all[place] == sorted[other];
        assert(all[first] == sorted[one] && all[second] == sorted[other]);
        if first < second {
            assert(all[first].id != all[second].id);
        } else {
            assert(all[second].id != all[first].id);
        }
    }
}

/// The list stays in the order of the names when a peer joins it: none stands
/// behind one whose name comes later.
pub proof fn peers_stand_in_the_order_of_their_names(peers: Seq<PeerModel>, peer: PeerModel)
    ensures
        with_newcomer(peers, peer).len() == peers.len() + 1,
        forall|left: int, right: int|
            0 <= left < right < with_newcomer(peers, peer).len() ==> !text_before(
                (#[trigger] with_newcomer(peers, peer)[right]).name,
                (#[trigger] with_newcomer(peers, peer)[left]).name,
            ),
{
    let before = |one: PeerModel, other: PeerModel| named_before(one, other);
    names_are_ordered();
    crate::order::sorting_is_stable(peers.push(peer), before);
    assert forall|left: int, right: int|
        0 <= left < right < with_newcomer(peers, peer).len() implies !text_before(
        (#[trigger] with_newcomer(peers, peer)[right]).name,
        (#[trigger] with_newcomer(peers, peer)[left]).name,
    ) by {
        assert(!before(with_newcomer(peers, peer)[right], with_newcomer(peers, peer)[left]));
    }
}

/// A peer from which a connection came is listed under the name, key and address
/// that the connection showed, as seen just now, and as paired exactly where its
/// key is trusted. A peer that was unknown has that address alone and no port to
/// be reached on; the other peers stay as they were. Nothing is noted of this
/// device itself.
pub proof fn a_caller_is_listed_as_it_showed_itself(
    manager: ManagerModel,
    observed: ObservedModel,
    key_text: Seq<char>,
    trust: TrustModel,
    now_ms: i64,
    peer: PeerModel,
)
    requires
        distinct_peers(manager.state.peers),
        manager.observed(observed, key_text, trust, now_ms) matches Ok(after)
            && after.state.peers.contains(peer),
    ensures
        observed.id == manager.device_id() ==> manager.observed(observed, key_text, trust, now_ms)
            == Ok::<_, ErrorModel>(manager),
        peer.id != observed.id ==> manager.state.peers.contains(peer),
        peer.id == observed.id && observed.id != manager.device_id() ==> {
            &&& peer.name == observed.name
            &&& peer.public_key == key_text
            &&& peer.address == observed.address
            &&& peer.addresses.contains(observed.address)
            &&& peer.last_seen_at_ms == now_ms
            &&& trust.paired(Some(observed.public_key)) == Ok::<_, ErrorModel>(peer.paired)
            &&& peer.automatic_receive == (peer.paired && policy_of(
                manager.policies,
                observed.id,
            ) == ReceivePolicy::Automatic)
            &&& (forall|place: int|
                0 <= place < manager.state.peers.len() ==> (
                #[trigger] manager.state.peers[place]).id != observed.id) ==> peer.port == 0
                && peer.addresses == seq![observed.address] && peer.certificate_sha256.len() == 0
        },
{
    let peers = manager.state.peers;
    if observed.id != manager.device_id() {
        let listed = manager.observed(observed, key_text, trust, now_ms)->Ok_0.state.peers;
        let paired = trust.paired(Some(observed.public_key))->Ok_0;
        first_peer_is_first(peers, observed.id);
        match first_peer(peers, observed.id) {
            Some(place) => {
                let spot = choose|spot: int| 0 <= spot < listed.len() && listed[spot] == peer;
                if spot != place {
                    assert(peers[spot] == peer);
                    assert(peers.contains(peer));
                    if spot < place {
                        assert(peers[spot].id != peers[place].id);
                    } else {
                        assert(peers[place].id != peers[spot].id);
                    }
                } else {
                    let addresses = with_address(peers[place].addresses, observed.address);
                    if !peers[place].addresses.contains(observed.address) {
                        assert(addresses[peers[place].addresses.len() as int] == observed.address);
                    }
                    assert(peers[place].id == observed.id);
                }
            },
            None => {
                let known = manager.newly_observed(observed, key_text, paired, now_ms);
                only_the_newcomer_joins(peers, known);
                assert(peers.contains(peer) || peer == known);
                assert(known.addresses[0] == observed.address);
                if peers.contains(peer) {
                    let spot = choose|spot: int| 0 <= spot < peers.len() && peers[spot] == peer;
                    assert(peers[spot].id != observed.id);
                }
            },
        }
    }
}

/// A connection from another device is noted unless the network cannot say
/// whether it is paired, and the device is listed then.
pub proof fn every_caller_is_listed(
    manager: ManagerModel,
    observed: ObservedModel,
    key_text: Seq<char>,
    trust: TrustModel,
    now_ms: i64,
)
    requires
        observed.id != manager.device_id(),
    ensures
        manager.observed(observed, key_text, trust, now_ms) is Ok <==> trust.paired(
            Some(observed.public_key),
        ) is Ok,
        manager.observed(observed, key_text, trust, now_ms) matches Ok(after) ==> {
            &&& exists|place: int|
                0 <= place < after.state.peers.len() && (#[trigger] after.state.peers[place]).id
                    == observed.id
            &&& after.state.transfers == manager.state.transfers
            &&& after.policies == manager.policies
            &&& manager.state.revision < u64::MAX ==> after.state.revision
                == manager.state.revision + 1
        },
{
    let peers = manager.state.peers;
    if let Ok(after) = manager.observed(observed, key_text, trust, now_ms) {
        let paired = trust.paired(Some(observed.public_key))->Ok_0;
        first_peer_is_first(peers, observed.id);
        match first_peer(peers, observed.id) {
            Some(place) => {
                assert(after.state.peers[place].id == observed.id);
            },
            None => {
                let known = manager.newly_observed(observed, key_text, paired, now_ms);
                only_the_newcomer_joins(peers, known);
                assert(after.state.peers.contains(known));
                let place = choose|place: int|
                    0 <= place < after.state.peers.len() && after.state.peers[place] == known;
                assert(after.state.peers[place].id == observed.id);
            },
        }
    }
}

/// The policy that a person chooses for a peer holds for it, is shown with it,
/// and changes nothing for the others.
pub proof fn the_chosen_policy_holds_and_is_shown(
    manager: ManagerModel,
    peer_id: Seq<char>,
    automatic: bool,
    other: Seq<char>,
    place: int,
)
    requires
        distinct_peers(manager.state.peers),
        0 <= place < manager.state.peers.len(),
    ensures
        policy_of(manager.with_policy(peer_id, chosen_policy(automatic)).policies, peer_id) == (
        if automatic {
            ReceivePolicy::Automatic
        } else {
            ReceivePolicy::AskEveryTime
        }),
        other != peer_id ==> policy_of(
            manager.with_policy(peer_id, chosen_policy(automatic)).policies,
            other,
        ) == policy_of(manager.policies, other),
        manager.with_policy(peer_id, chosen_policy(automatic)).state == manager.state,
        ({
            let shown = manager.with_policy_shown(peer_id, automatic).state.peers;
            let before = manager.state.peers[place];
            &&& shown.len() == manager.state.peers.len()
            &&& before.id == peer_id ==> shown[place].automatic_receive == automatic && (
            PeerModel { automatic_receive: before.automatic_receive, ..shown[place] }) == before
            &&& before.id != peer_id ==> shown[place] == before
        }),
{
    first_peer_is_first(manager.state.peers, peer_id);
    if let Some(found) = first_peer(manager.state.peers, peer_id) {
        if found < place {
            assert(manager.state.peers[found].id != manager.state.peers[place].id);
        } else if place < found {
            assert(manager.state.peers[place].id != manager.state.peers[found].id);
        }
    }
}

/// A peer may send without being asked about exactly where it is paired and its
/// policy says so.
pub proof fn automatic_needs_pairing_and_policy(
    manager: ManagerModel,
    peer_id: Seq<char>,
    paired: bool,
)
    ensures
        manager.automatic(peer_id, paired) <==> paired && policy_of(manager.policies, peer_id)
            == ReceivePolicy::Automatic,
{
}

/// A transfer is going on with a peer exactly where one with it is listed that
/// is neither completed, rejected, cancelled nor failed; and a peer that leaves
/// is forgotten where none is.
pub proof fn an_idle_peer_is_forgotten(manager: ManagerModel, peer_id: Seq<char>, peer: PeerModel)
    requires
        forall|place: int|
            0 <= place < manager.state.transfers.len() && (
            #[trigger] manager.state.transfers[place]).peer_id == peer_id ==> {
                let status = manager.state.transfers[place].status;
                status is Completed || status is Rejected || status is Cancelled || status is Failed
            },
    ensures
        manager.removed(peer_id).state.peers.contains(peer) <==> manager.state.peers.contains(peer)
            && peer.id != peer_id,
        manager.removed(peer_id).state.transfers == manager.state.transfers,
{
    assert(!busy_with(manager.state.transfers, peer_id));
    only_that_peer_is_forgotten(manager.state.peers, peer_id);
}

} // verus!
