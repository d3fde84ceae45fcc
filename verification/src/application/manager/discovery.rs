//! What the search of the network shows, carried over into the list of peers.

use super::{ManagerModel, TransferManager};
use crate::application::trust::{Trust, TrustModel};
use crate::domain::peer::PeerModel;
use crate::domain::transfer::peer_models;
use crate::domain::NearbyPeer;
use crate::error::ErrorModel;
use crate::infrastructure::encoding::{
    base64_bytes, base64_fits, base64_text, encode_hex, encode_key, hex_text,
};
use crate::text::{same_text, texts};
use vstd::prelude::*;
use vstd::string::*;

verus! {

/// A device that announces itself on the network.
#[derive(Debug, PartialEq, Eq)]
pub struct Advertisement {
    pub device_id: String,
    pub name: String,
    pub platform: String,
    pub model: String,
    pub addresses: Vec<String>,
    pub port: u16,
    pub public_key: Vec<u8>,
    pub certificate_sha256: Vec<u8>,
    pub last_seen_at_ms: i64,
}

/// The mathematical value of an [`Advertisement`].
pub struct AdvertisementModel {
    pub device_id: Seq<char>,
    pub name: Seq<char>,
    pub platform: Seq<char>,
    pub model: Seq<char>,
    pub addresses: Seq<Seq<char>>,
    pub port: u16,
    pub public_key: Seq<u8>,
    pub certificate_sha256: Seq<u8>,
    pub last_seen_at_ms: i64,
}

impl View for Advertisement {
    type V = AdvertisementModel;

    open spec fn view(&self) -> AdvertisementModel {
        AdvertisementModel {
            device_id: self.device_id@,
            name: self.name@,
            platform: self.platform@,
            model: self.model@,
            addresses: texts(self.addresses@),
            port: self.port,
            public_key: self.public_key@,
            certificate_sha256: self.certificate_sha256@,
            last_seen_at_ms: self.last_seen_at_ms,
        }
    }
}

/// The values of a list of announcements.
pub open spec fn advertisement_models(devices: Seq<Advertisement>) -> Seq<AdvertisementModel> {
    devices.map_values(|device: Advertisement| device@)
}

/// The values of a list of trusts.
pub open spec fn trust_models(trusts: Seq<Trust>) -> Seq<TrustModel> {
    trusts.map_values(|trust: Trust| trust@)
}

/// A device that announces itself, as a peer. It is reached at its first
/// address first.
pub open spec fn announced(device: AdvertisementModel) -> PeerModel {
    PeerModel {
        id: device.device_id,
        name: device.name,
        platform: device.platform,
        model: device.model,
        address: device.addresses[0],
        addresses: device.addresses,
        port: device.port,
        public_key: base64_text(device.public_key),
        certificate_sha256: hex_text(device.certificate_sha256),
        paired: false,
        automatic_receive: false,
        last_seen_at_ms: device.last_seen_at_ms,
    }
}

/// Whether a device among those that announce themselves is seen under an
/// identifier by another device.
pub open spec fn visible(
    devices: Seq<AdvertisementModel>,
    local_id: Seq<char>,
    id: Seq<char>,
) -> bool {
    id != local_id && exists|place: int|
        0 <= place < devices.len() && (#[trigger] devices[place]).device_id == id
}

impl ManagerModel {
    /// The service after the devices that announce themselves were taken in,
    /// one after the other: each but this one that has an address. Where one
    /// cannot be taken in the others are all the same.
    pub open spec fn met(
        self,
        local_id: Seq<char>,
        devices: Seq<AdvertisementModel>,
        trusts: Seq<TrustModel>,
    ) -> ManagerModel
        decreases devices.len(),
    {
        if devices.len() == 0 {
            self
        } else {
            let before = self.met(local_id, devices.drop_last(), trusts);
            let device = devices.last();
            if device.device_id == local_id || device.addresses.len() == 0 {
                before
            } else {
                match before.upserted(announced(device), trusts[devices.len() - 1]) {
                    Ok(after) => after,
                    Err(_) => before,
                }
            }
        }
    }

    /// The service after the peers were forgotten that do not announce
    /// themselves any more.
    pub open spec fn parted(
        self,
        local_id: Seq<char>,
        devices: Seq<AdvertisementModel>,
        peers: Seq<PeerModel>,
    ) -> ManagerModel
        decreases peers.len(),
    {
        if peers.len() == 0 {
            self
        } else {
            let before = self.parted(local_id, devices, peers.drop_last());
            if visible(devices, local_id, peers.last().id) {
                before
            } else {
                before.removed(peers.last().id)
            }
        }
    }

    /// The service after a search of the network.
    pub open spec fn projected(
        self,
        local_id: Seq<char>,
        devices: Seq<AdvertisementModel>,
        trusts: Seq<TrustModel>,
    ) -> ManagerModel {
        let met = self.met(local_id, devices, trusts);
        met.parted(local_id, devices, met.state.peers)
    }
}

fn announced_peer(device: &Advertisement) -> (peer: NearbyPeer)
    requires
        device@.addresses.len() > 0,
        base64_fits(device@.public_key.len()),
    ensures
        peer@ == announced(device@),
{
    let addresses = device.addresses.clone();
    assert(texts(addresses@) =~= texts(device.addresses@));
    assert(device.addresses@[0]@ == device@.addresses[0]);
    NearbyPeer {
        id: device.device_id.clone(),
        name: device.name.clone(),
        platform: device.platform.clone(),
        model: device.model.clone(),
        address: device.addresses[0].clone(),
        addresses,
        port: device.port,
        public_key: encode_key(device.public_key.as_slice()),
        certificate_sha256: encode_hex(device.certificate_sha256.as_slice()),
        paired: false,
        automatic_receive: false,
        last_seen_at_ms: device.last_seen_at_ms,
    }
}

fn is_visible(devices: &Vec<Advertisement>, local_id: &str, id: &str) -> (seen: bool)
    ensures
        seen == visible(advertisement_models(devices@), local_id@, id@),
{
    if same_text(id, local_id) {
        return false;
    }
    let ghost models = advertisement_models(devices@);
    let mut place: usize = 0;
    while place < devices.len()
        invariant
            place <= devices@.len(),
            models == advertisement_models(devices@),
            id@ != local_id@,
            forall|earlier: int|
                0 <= earlier < place ==> (#[trigger] models[earlier]).device_id != id@,
        decreases devices@.len() - place,
    {
        assert(models[place as int] == devices@[place as int]@);
        if same_text(devices[place].device_id.as_str(), id) {
            return true;
        }
        place += 1;
    }
    false
}

impl TransferManager {
    fn meet(&mut self, local_id: &str, devices: &Vec<Advertisement>, trusts: &Vec<Trust>)
        requires
            old(self).wf(),
            trusts@.len() == devices@.len(),
            forall|place: int|
                0 <= place < devices@.len() ==> base64_fits(
                    (#[trigger] devices@[place])@.public_key.len(),
                ),
        ensures
            final(self).wf(),
            final(self)@ == old(self)@.met(
                local_id@,
                advertisement_models(devices@),
                trust_models(trusts@),
            ),
    {
        let ghost before = self@;
        let ghost models = advertisement_models(devices@);
        let ghost known = trust_models(trusts@);
        let mut place: usize = 0;
        assert(models.take(0) =~= Seq::empty());
        while place < devices.len()
            invariant
                place <= devices@.len() == trusts@.len(),
                models == advertisement_models(devices@),
                known == trust_models(trusts@),
                self.wf(),
                forall|place: int|
                    0 <= place < devices@.len() ==> base64_fits(
                        (#[trigger] devices@[place])@.public_key.len(),
                    ),
                self@ == before.met(local_id@, models.take(place as int), known),
            decreases devices@.len() - place,
        {
            proof {
                assert(models.take(place + 1).drop_last() =~= models.take(place as int));
                assert(models.take(place + 1).last() == devices@[place as int]@);
                assert(known[place as int] == trusts@[place as int]@);
            }
            if !same_text(devices[place].device_id.as_str(), local_id)
                && devices[place].addresses.len() > 0 {
                let _ = self.upsert_peer(announced_peer(&devices[place]), &trusts[place]);
            }
            place += 1;
        }
        assert(models.take(models.len() as int) =~= models);
    }

    /// Takes in what a search of the network shows. `trusts` says of each
    /// device what the network knows of it.
    pub fn project_snapshot(
        &mut self,
        local_id: &str,
        devices: &Vec<Advertisement>,
        trusts: &Vec<Trust>,
    )
        requires
            old(self).wf(),
            trusts@.len() == devices@.len(),
            forall|place: int|
                0 <= place < devices@.len() ==> base64_fits(
                    (#[trigger] devices@[place])@.public_key.len(),
                ),
        ensures
            final(self).wf(),
            final(self)@ == old(self)@.projected(
                local_id@,
                advertisement_models(devices@),
                trust_models(trusts@),
            ),
    {
        self.meet(local_id, devices, trusts);
        let ghost met = self@;
        let ghost models = advertisement_models(devices@);
        let current = self.snapshot().peers;
        let ghost listed = peer_models(current@);
        let mut place: usize = 0;
        assert(listed.take(0) =~= Seq::empty());
        while place < current.len()
            invariant
                place <= current@.len(),
                models == advertisement_models(devices@),
                listed == peer_models(current@),
                self.wf(),
                self@ == met.parted(local_id@, models, listed.take(place as int)),
            decreases current@.len() - place,
        {
            proof {
                assert(listed.take(place + 1).drop_last() =~= listed.take(place as int));
                assert(listed.take(place + 1).last() == current@[place as int]@);
            }
            if !is_visible(devices, local_id, current[place].id.as_str()) {
                self.remove_peer(current[place].id.as_str());
            }
            place += 1;
        }
        assert(listed.take(listed.len() as int) =~= listed);
    }
}

/// Whether a peer with that identifier is listed.
pub open spec fn lists(peers: Seq<PeerModel>, id: Seq<char>) -> bool {
    exists|peer: PeerModel| #[trigger] peers.contains(peer) && peer.id == id
}

proof fn found_peer_is_listed(manager: ManagerModel, peer: PeerModel, trust: TrustModel)
    ensures
        manager.upserted(peer, trust) matches Ok(after) ==> {
            &&& after.state.transfers == manager.state.transfers
            &&& after.identity == manager.identity
            &&& forall|id: Seq<char>| #[trigger]
                lists(after.state.peers, id) <==> lists(manager.state.peers, id) || id == peer.id
                    && peer.id != manager.device_id()
        },
{
    let peers = manager.state.peers;
    if let Ok(after) = manager.upserted(peer, trust) {
        if peer.id != manager.device_id() {
            let listed = after.state.peers;
            super::peers::first_peer_is_first(peers, peer.id);
            match super::peers::first_peer(peers, peer.id) {
                Some(place) => {
                    let known = listed[place];
                    assert(listed == peers.update(place, known));
                    assert(known.id == peer.id);
                    assert forall|id: Seq<char>| #[trigger]
                        lists(listed, id) <==> lists(peers, id) || id == peer.id by {
                        if lists(listed, id) {
                            let one = choose|one: PeerModel| #[trigger]
                                listed.contains(one) && one.id == id;
                            let spot = choose|spot: int|
                                0 <= spot < listed.len() && listed[spot] == one;
                            if spot != place {
                                assert(peers[spot] == one);
                                assert(peers.contains(one));
                            }
                        }
                        if lists(peers, id) {
                            let one = choose|one: PeerModel| #[trigger]
                                peers.contains(one) && one.id == id;
                            let spot = choose|spot: int|
                                0 <= spot < peers.len() && peers[spot] == one;
                            assert(listed.contains(listed[spot]));
                            assert(listed[spot].id == id);
                        }
                        assert(listed.contains(known));
                    }
                },
                None => {
                    let known = choose|known: PeerModel|
                        known.id == peer.id && listed == #[trigger] super::peers::with_newcomer(
                            peers,
                            known,
                        );
                    super::peers::only_the_newcomer_joins(peers, known);
                    assert forall|id: Seq<char>| #[trigger]
                        lists(listed, id) <==> lists(peers, id) || id == peer.id by {
                        if lists(listed, id) {
                            let one = choose|one: PeerModel| #[trigger]
                                listed.contains(one) && one.id == id;
                            assert(peers.contains(one) || one == known);
                        }
                        if lists(peers, id) {
                            let one = choose|one: PeerModel| #[trigger]
                                peers.contains(one) && one.id == id;
                            assert(listed.contains(one));
                        }
                        assert(listed.contains(known));
                    }
                },
            }
        }
    }
}

/// Whether a device that announces itself is taken in as a peer: it is another
/// device, it has an address, and the network can tell whether its key is
/// trusted.
pub open spec fn taken_in(
    manager: ManagerModel,
    local_id: Seq<char>,
    device: AdvertisementModel,
    trust: TrustModel,
) -> bool {
    &&& device.device_id != local_id
    &&& device.device_id != manager.device_id()
    &&& device.addresses.len() > 0
    &&& base64_bytes(base64_text(device.public_key)) matches Some(key) && trust.paired(
        Some(key),
    ) is Ok
}

proof fn met_devices_are_listed(
    manager: ManagerModel,
    local_id: Seq<char>,
    devices: Seq<AdvertisementModel>,
    trusts: Seq<TrustModel>,
)
    ensures
        ({
            let after = manager.met(local_id, devices, trusts);
            &&& after.state.transfers == manager.state.transfers
            &&& after.identity == manager.identity
            &&& forall|id: Seq<char>| #[trigger]
                lists(after.state.peers, id) <==> lists(manager.state.peers, id) || exists|
                    place: int,
                |
                    0 <= place < devices.len() && (#[trigger] devices[place]).device_id == id
                        && taken_in(manager, local_id, devices[place], trusts[place])
        }),
    decreases devices.len(),
{
    if devices.len() > 0 {
        let front = devices.drop_last();
        let before = manager.met(local_id, front, trusts);
        let after = manager.met(local_id, devices, trusts);
        let last = devices.len() - 1;
        met_devices_are_listed(manager, local_id, front, trusts);
        found_peer_is_listed(before, announced(devices.last()), trusts[last]);
        assert forall|id: Seq<char>| #[trigger]
            lists(after.state.peers, id) <==> lists(manager.state.peers, id) || exists|place: int|
                0 <= place < devices.len() && (#[trigger] devices[place]).device_id == id
                    && taken_in(manager, local_id, devices[place], trusts[place]) by {
            assert(devices[last] == devices.last());
            if lists(after.state.peers, id) {
                if lists(before.state.peers, id) && !lists(manager.state.peers, id) {
                    let place = choose|place: int|
                        0 <= place < front.len() && (#[trigger] front[place]).device_id == id
                            && taken_in(manager, local_id, front[place], trusts[place]);
                    assert(devices[place] == front[place]);
                }
            }
            if exists|place: int|
                0 <= place < devices.len() && (#[trigger] devices[place]).device_id == id
                    && taken_in(manager, local_id, devices[place], trusts[place]) {
                let place = choose|place: int|
                    0 <= place < devices.len() && (#[trigger] devices[place]).device_id == id
                        && taken_in(manager, local_id, devices[place], trusts[place]);
                if place < last {
                    assert(front[place] == devices[place]);
                }
            }
            assert(lists(before.state.peers, id) ==> lists(after.state.peers, id));
        }
    }
}

proof fn parted_peers_are_gone(
    manager: ManagerModel,
    local_id: Seq<char>,
    devices: Seq<AdvertisementModel>,
    peers: Seq<PeerModel>,
)
    ensures
        ({
            let after = manager.parted(local_id, devices, peers);
            &&& after.state.transfers == manager.state.transfers
            &&& forall|peer: PeerModel| #[trigger]
                after.state.peers.contains(peer) <==> manager.state.peers.contains(peer) && (
                !lists(peers, peer.id) || visible(devices, local_id, peer.id)
                    || super::peers::busy_with(manager.state.transfers, peer.id))
        }),
    decreases peers.len(),
{
    if peers.len() > 0 {
        let front = peers.drop_last();
        let before = manager.parted(local_id, devices, front);
        let after = manager.parted(local_id, devices, peers);
        let gone = peers.last().id;
        parted_peers_are_gone(manager, local_id, devices, front);
        super::peers::only_that_peer_is_forgotten(before.state.peers, gone);
        assert forall|id: Seq<char>| #[trigger] lists(peers, id) <==> lists(front, id) || id
            == gone by {
            assert(front.push(peers.last()) =~= peers);
            if lists(peers, id) {
                let one = choose|one: PeerModel| #[trigger] peers.contains(one) && one.id == id;
                let spot = choose|spot: int| 0 <= spot < peers.len() && peers[spot] == one;
                if spot < front.len() {
                    assert(front[spot] == one);
                    assert(front.contains(one));
                }
            }
            if lists(front, id) {
                let one = choose|one: PeerModel| #[trigger] front.contains(one) && one.id == id;
                let spot = choose|spot: int| 0 <= spot < front.len() && front[spot] == one;
                assert(peers[spot] == one);
                assert(peers.contains(one));
            }
            assert(peers[peers.len() - 1] == peers.last());
            assert(peers.contains(peers.last()));
        }
        assert forall|peer: PeerModel| #[trigger]
            after.state.peers.contains(peer) <==> manager.state.peers.contains(peer) && (!lists(
                peers,
                peer.id,
            ) || visible(devices, local_id, peer.id) || super::peers::busy_with(
                manager.state.transfers,
                peer.id,
            )) by {
            assert(lists(peers, peer.id) <==> lists(front, peer.id) || peer.id == gone);
            assert(before.state.peers.contains(peer) <==> manager.state.peers.contains(peer) && (
            !lists(front, peer.id) || visible(devices, local_id, peer.id)
                || super::peers::busy_with(manager.state.transfers, peer.id)));
        }
    }
}

/// After a search of the network those peers are listed that were listed or
/// were taken in now, and that announce themselves or have a transfer going on.
/// So this device itself is not listed, and one that announces itself no more
/// is not, unless a transfer with it is going on.
pub proof fn search_lists_what_is_there(
    manager: ManagerModel,
    local_id: Seq<char>,
    devices: Seq<AdvertisementModel>,
    trusts: Seq<TrustModel>,
)
    ensures
        forall|id: Seq<char>| #[trigger]
            lists(manager.projected(local_id, devices, trusts).state.peers, id) <==> {
                &&& lists(manager.state.peers, id) || exists|place: int|
                    0 <= place < devices.len() && (#[trigger] devices[place]).device_id == id
                        && taken_in(manager, local_id, devices[place], trusts[place])
                &&& visible(devices, local_id, id) || super::peers::busy_with(
                    manager.state.transfers,
                    id,
                )
            },
        !super::peers::busy_with(manager.state.transfers, local_id) ==> !lists(
            manager.projected(local_id, devices, trusts).state.peers,
            local_id,
        ),
{
    let met = manager.met(local_id, devices, trusts);
    let after = manager.projected(local_id, devices, trusts);
    met_devices_are_listed(manager, local_id, devices, trusts);
    parted_peers_are_gone(met, local_id, devices, met.state.peers);
    assert forall|id: Seq<char>| #[trigger] lists(after.state.peers, id) <==> lists(
        met.state.peers,
        id,
    ) && (visible(devices, local_id, id) || super::peers::busy_with(
        manager.state.transfers,
        id,
    )) by {
        if lists(after.state.peers, id) {
            let one = choose|one: PeerModel| #[trigger]
                after.state.peers.contains(one) && one.id == id;
            assert(met.state.peers.contains(one));
            assert(lists(met.state.peers, one.id));
        }
        if lists(met.state.peers, id) && (visible(devices, local_id, id)
            || super::peers::busy_with(manager.state.transfers, id)) {
            let one = choose|one: PeerModel| #[trigger]
                met.state.peers.contains(one) && one.id == id;
            assert(after.state.peers.contains(one));
        }
    }
}

/// A peer that is taken up is listed with its record, as paired where it is
/// trusted under its key, and as one to receive from silently where its policy
/// says so. The record of no other peer changes.
pub proof fn upserted_peer_is_the_record(
    manager: ManagerModel,
    peer: PeerModel,
    trust: TrustModel,
    one: PeerModel,
)
    requires
        super::peers::distinct_peers(manager.state.peers),
        manager.upserted(peer, trust) matches Ok(after) && after.state.peers.contains(one),
    ensures
        one.id != peer.id || peer.id == manager.device_id() ==> manager.state.peers.contains(one),
        one.id == peer.id && peer.id != manager.device_id() ==> {
            &&& (PeerModel {
                paired: peer.paired,
                automatic_receive: peer.automatic_receive,
                ..one
            }) == peer
            &&& base64_bytes(peer.public_key) matches Some(key) && trust.paired(Some(key)) == Ok::<
                _,
                ErrorModel,
            >(one.paired)
            &&& one.automatic_receive == manager.automatic(peer.id, one.paired)
        },
{
    let peers = manager.state.peers;
    if peer.id != manager.device_id() {
        let listed = manager.upserted(peer, trust)->Ok_0.state.peers;
        let key = base64_bytes(peer.public_key)->0;
        let paired = trust.paired(Some(key))->Ok_0;
        let known = PeerModel {
            paired,
            automatic_receive: manager.automatic(peer.id, paired),
            ..peer
        };
        super::peers::first_peer_is_first(peers, peer.id);
        match super::peers::first_peer(peers, peer.id) {
            Some(place) => {
                let spot = choose|spot: int| 0 <= spot < listed.len() && listed[spot] == one;
                if spot != place {
                    assert(peers[spot] == one);
                    assert(peers.contains(one));
                    if spot < place {
                        assert(peers[spot].id != peers[place].id);
                    } else {
                        assert(peers[place].id != peers[spot].id);
                    }
                }
            },
            None => {
                super::peers::only_the_newcomer_joins(peers, known);
                assert(peers.contains(one) || one == known);
                if peers.contains(one) {
                    let spot = choose|spot: int| 0 <= spot < peers.len() && peers[spot] == one;
                    assert(peers[spot].id != peer.id);
                }
            },
        }
    }
}

proof fn met_peers_stay_distinct(
    manager: ManagerModel,
    local_id: Seq<char>,
    devices: Seq<AdvertisementModel>,
    trusts: Seq<TrustModel>,
)
    requires
        super::peers::distinct_peers(manager.state.peers),
    ensures
        super::peers::distinct_peers(manager.met(local_id, devices, trusts).state.peers),
    decreases devices.len(),
{
    if devices.len() > 0 {
        let before = manager.met(local_id, devices.drop_last(), trusts);
        met_peers_stay_distinct(manager, local_id, devices.drop_last(), trusts);
        let nobody = super::peers::ObservedModel {
            id: Seq::empty(),
            name: Seq::empty(),
            public_key: Seq::empty(),
            address: Seq::empty(),
        };
        super::peers::no_peer_is_listed_twice(
            before,
            announced(devices.last()),
            nobody,
            Seq::empty(),
            trusts[devices.len() - 1],
            Seq::empty(),
            false,
            0,
        );
    }
}

/// Whether a peer is listed as a device announces itself: with its name,
/// platform and model, all of its addresses, the first of them first, its port,
/// its key and certificate as text, and the time when it was seen.
pub open spec fn as_announced(peer: PeerModel, device: AdvertisementModel) -> bool {
    &&& peer.id == device.device_id
    &&& peer.name == device.name
    &&& peer.platform == device.platform
    &&& peer.model == device.model
    &&& peer.addresses == device.addresses
    &&& device.addresses.len() > 0 && peer.address == device.addresses[0]
    &&& peer.port == device.port
    &&& peer.public_key == base64_text(device.public_key)
    &&& peer.certificate_sha256 == hex_text(device.certificate_sha256)
    &&& peer.last_seen_at_ms == device.last_seen_at_ms
}

proof fn met_peer_is_as_announced(
    manager: ManagerModel,
    local_id: Seq<char>,
    devices: Seq<AdvertisementModel>,
    trusts: Seq<TrustModel>,
    place: int,
    peer: PeerModel,
)
    requires
        super::peers::distinct_peers(manager.state.peers),
        0 <= place < devices.len(),
        taken_in(manager, local_id, devices[place], trusts[place]),
        forall|other: int|
            0 <= other < devices.len() && other != place ==> (#[trigger] devices[other]).device_id
                != devices[place].device_id,
        manager.met(local_id, devices, trusts).state.peers.contains(peer),
        peer.id == devices[place].device_id,
    ensures
        as_announced(peer, devices[place]),
        base64_bytes(base64_text(devices[place].public_key)) matches Some(key)
            && trusts[place].paired(Some(key)) == Ok::<_, ErrorModel>(peer.paired),
    decreases devices.len(),
{
    let front = devices.drop_last();
    let before = manager.met(local_id, front, trusts);
    let device = devices.last();
    let last = devices.len() - 1;
    assert(devices[last] == device);
    met_devices_are_listed(manager, local_id, front, trusts);
    met_peers_stay_distinct(manager, local_id, front, trusts);
    if place == last {
        upserted_peer_is_the_record(before, announced(device), trusts[last], peer);
    } else {
        if device.device_id != local_id && device.addresses.len() > 0 && before.upserted(
            announced(device),
            trusts[last],
        ) is Ok {
            upserted_peer_is_the_record(before, announced(device), trusts[last], peer);
        }
        assert forall|other: int| 0 <= other < front.len() && other != place implies (
        #[trigger] front[other]).device_id != front[place].device_id by {
            assert(devices[other].device_id != devices[place].device_id);
        }
        met_peer_is_as_announced(manager, local_id, front, trusts, place, peer);
    }
}

/// After a search of the network a device that announces itself and is taken in
/// is listed once, just as it announces itself, so that it can be reached on its
/// port at its addresses; and it is shown as paired exactly where its key is
/// trusted.
pub proof fn found_devices_are_listed_as_they_announce_themselves(
    manager: ManagerModel,
    local_id: Seq<char>,
    devices: Seq<AdvertisementModel>,
    trusts: Seq<TrustModel>,
    place: int,
)
    requires
        super::peers::distinct_peers(manager.state.peers),
        0 <= place < devices.len(),
        taken_in(manager, local_id, devices[place], trusts[place]),
        forall|other: int|
            0 <= other < devices.len() && other != place ==> (#[trigger] devices[other]).device_id
                != devices[place].device_id,
    ensures
        lists(
            manager.projected(local_id, devices, trusts).state.peers,
            devices[place].device_id,
        ),
        forall|peer: PeerModel| #[trigger]
            manager.projected(local_id, devices, trusts).state.peers.contains(peer) && peer.id
                == devices[place].device_id ==> as_announced(peer, devices[place]) && (base64_bytes(
                base64_text(devices[place].public_key),
            ) matches Some(key) && trusts[place].paired(Some(key)) == Ok::<_, ErrorModel>(
                peer.paired,
            )),
{
    let met = manager.met(local_id, devices, trusts);
    search_lists_what_is_there(manager, local_id, devices, trusts);
    parted_peers_are_gone(met, local_id, devices, met.state.peers);
    assert(visible(devices, local_id, devices[place].device_id));
    assert forall|peer: PeerModel| #[trigger]
        manager.projected(local_id, devices, trusts).state.peers.contains(peer) && peer.id
            == devices[place].device_id implies as_announced(peer, devices[place]) && (base64_bytes(
        base64_text(devices[place].public_key),
    ) matches Some(key) && trusts[place].paired(Some(key)) == Ok::<_, ErrorModel>(peer.paired)) by {
        met_peer_is_as_announced(manager, local_id, devices, trusts, place, peer);
    }
}

/// A peer is taken up unless its key is none or the trust in it cannot be told;
/// it is listed then, and this device itself is passed over.
pub proof fn a_peer_is_taken_up_unless_its_key_is_bad(
    manager: ManagerModel,
    peer: PeerModel,
    trust: TrustModel,
)
    ensures
        manager.upserted(peer, trust) is Ok <==> peer.id == manager.device_id() || (base64_bytes(
            peer.public_key,
        ) is Some && trust.paired(Some(base64_bytes(peer.public_key)->0)) is Ok),
        manager.upserted(peer, trust) matches Ok(after) ==> {
            &&& peer.id != manager.device_id() ==> lists(after.state.peers, peer.id)
            &&& peer.id == manager.device_id() ==> after == manager
            &&& after.state.transfers == manager.state.transfers
            &&& after.policies == manager.policies
        },
{
    found_peer_is_listed(manager, peer, trust);
}

} // verus!
