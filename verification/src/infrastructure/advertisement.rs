//! The record by which a peer is connected to, made of what is shown of it.

use super::encoding::{base64_bytes, decode_hex, decode_key, hex_bytes};
use crate::domain::peer::{parses_as, Endpoint, IpAddress, PeerModel};
use crate::domain::NearbyPeer;
use crate::error::{ErrorModel, TransferError};
use vstd::prelude::*;
use vstd::string::*;

verus! {

/// The length of a certificate's digest in bytes.
pub const CERTIFICATE_DIGEST_BYTES: usize = 32;

/// A peer as the network connects to it.
#[derive(Debug, PartialEq, Eq)]
pub struct PeerAdvertisement {
    pub device_id: String,
    pub public_key: Vec<u8>,
    pub name: String,
    pub platform: String,
    pub model: String,
    pub addresses: Vec<IpAddress>,
    pub connection_addresses: Vec<Endpoint>,
    pub port: u16,
    pub certificate_sha256: Vec<u8>,
    pub last_seen_at_ms: i64,
}

/// The mathematical value of a [`PeerAdvertisement`].
pub struct TargetModel {
    pub device_id: Seq<char>,
    pub public_key: Seq<u8>,
    pub name: Seq<char>,
    pub platform: Seq<char>,
    pub model: Seq<char>,
    pub addresses: Seq<IpAddress>,
    pub connection_addresses: Seq<Endpoint>,
    pub port: u16,
    pub certificate_sha256: Seq<u8>,
    pub last_seen_at_ms: i64,
}

impl View for PeerAdvertisement {
    type V = TargetModel;

    open spec fn view(&self) -> TargetModel {
        TargetModel {
            device_id: self.device_id@,
            public_key: self.public_key@,
            name: self.name@,
            platform: self.platform@,
            model: self.model@,
            addresses: self.addresses@,
            connection_addresses: self.connection_addresses@,
            port: self.port,
            certificate_sha256: self.certificate_sha256@,
            last_seen_at_ms: self.last_seen_at_ms,
        }
    }
}

/// The addresses among texts that can be read as such.
pub open spec fn readable(
    list: Seq<Seq<char>>,
    reading: spec_fn(Seq<char>) -> Option<IpAddress>,
) -> Seq<IpAddress>
    decreases list.len(),
{
    if list.len() == 0 {
        Seq::empty()
    } else {
        let before = readable(list.drop_last(), reading);
        match reading(list.last()) {
            Some(address) => before.push(address),
            None => before,
        }
    }
}

/// Addresses, each with a port.
pub open spec fn with_port(addresses: Seq<IpAddress>, port: u16) -> Seq<Endpoint> {
    addresses.map_values(|address: IpAddress| Endpoint { address, port })
}

/// The record of a peer under the key that is shown of it, whose key belongs to
/// its identifier if `bound` says so.
pub open spec fn target_under(
    peer: PeerModel,
    key: Seq<u8>,
    valid_key: bool,
    bound: bool,
    reading: spec_fn(Seq<char>) -> Option<IpAddress>,
) -> Result<TargetModel, ErrorModel> {
    let addresses = readable(peer.addresses, reading);
    if !valid_key {
        Err(ErrorModel::Invalid("invalid device public key"@))
    } else if !bound {
        Err(ErrorModel::Invalid("device identifier does not match its public key"@))
    } else if addresses.len() == 0 || peer.port == 0 {
        Err(ErrorModel::Invalid("device network address is unavailable"@))
    } else {
        match hex_bytes(peer.certificate_sha256) {
            None => Err(ErrorModel::Invalid("invalid device certificate digest"@)),
            Some(digest) => if digest.len() != CERTIFICATE_DIGEST_BYTES {
                Err(ErrorModel::Invalid("invalid device certificate digest"@))
            } else {
                Ok(
                    TargetModel {
                        device_id: peer.id,
                        public_key: key,
                        name: peer.name,
                        platform: peer.platform,
                        model: peer.model,
                        addresses,
                        connection_addresses: with_port(addresses, peer.port),
                        port: peer.port,
                        certificate_sha256: digest,
                        last_seen_at_ms: peer.last_seen_at_ms,
                    },
                )
            },
        }
    }
}

/// Whether `judge` holds of just the keys of which `good` holds.
pub open spec fn judges_as<K: Fn(&Vec<u8>) -> bool>(judge: K, good: spec_fn(Seq<u8>) -> bool) -> bool {
    forall|key: Vec<u8>, result: bool| #[trigger]
        judge.ensures((&key,), result) ==> result == good(key@)
}

/// The record by which a peer is connected to: `keys` holds of what is a key,
/// `owners` of the keys that belong to the peer's identifier.
pub open spec fn target(
    peer: PeerModel,
    valid_id: bool,
    keys: spec_fn(Seq<u8>) -> bool,
    owners: spec_fn(Seq<u8>) -> bool,
    reading: spec_fn(Seq<char>) -> Option<IpAddress>,
) -> Result<TargetModel, ErrorModel> {
    if !valid_id {
        Err(ErrorModel::Invalid("invalid device identity"@))
    } else {
        match base64_bytes(peer.public_key) {
            None => Err(ErrorModel::Invalid("invalid peer public key"@)),
            Some(key) => target_under(peer, key, keys(key), owners(key), reading),
        }
    }
}

/// What came of making a record.
pub open spec fn target_outcome(result: Result<PeerAdvertisement, TransferError>) -> Result<
    TargetModel,
    ErrorModel,
> {
    match result {
        Ok(target) => Ok(target@),
        Err(error) => Err(error@),
    }
}

fn read_addresses<F: Fn(&str) -> Option<IpAddress>>(list: &Vec<String>, parse: F) -> (addresses:
    Vec<IpAddress>)
    requires
        forall|text: &str| #[trigger] parse.requires((text,)),
    ensures
        forall|reading: spec_fn(Seq<char>) -> Option<IpAddress>| #[trigger]
            parses_as(parse, reading) ==> addresses@ == readable(
                crate::text::texts(list@),
                reading,
            ),
{
    let ghost listed = crate::text::texts(list@);
    let mut addresses: Vec<IpAddress> = Vec::new();
    let mut index: usize = 0;
    assert(listed.take(0) =~= Seq::empty());
    while index < list.len()
        invariant
            index <= list@.len(),
            listed == crate::text::texts(list@),
            forall|text: &str| #[trigger] parse.requires((text,)),
            forall|reading: spec_fn(Seq<char>) -> Option<IpAddress>| #[trigger]
                parses_as(parse, reading) ==> addresses@ == readable(
                    listed.take(index as int),
                    reading,
                ),
        decreases list@.len() - index,
    {
        proof {
            assert(listed.take(index + 1).drop_last() =~= listed.take(index as int));
            assert(listed.take(index + 1).last() == list@[index as int]@);
        }
        let text = list[index].as_str();
        let parsed = parse(text);
        proof {
            assert forall|reading: spec_fn(Seq<char>) -> Option<IpAddress>| #[trigger]
                parses_as(parse, reading) implies parsed == reading(list@[index as int]@) by {
                assert(parse.ensures((text,), parsed));
            }
        }
        match parsed {
            Some(address) => {
                addresses.push(address);
            },
            None => {},
        }
        index += 1;
    }
    assert(listed.take(listed.len() as int) =~= listed);
    addresses
}

/// The record of a peer under the key that is shown of it. `valid_key` says
/// whether that is a key at all, `bound` whether it belongs to the peer's
/// identifier; `parse` reads a text as an IP address.
pub fn peer_advertisement_under<F: Fn(&str) -> Option<IpAddress>>(
    peer: &NearbyPeer,
    key: Vec<u8>,
    valid_key: bool,
    bound: bool,
    parse: F,
) -> (result: Result<PeerAdvertisement, TransferError>)
    requires
        forall|text: &str| #[trigger] parse.requires((text,)),
    ensures
        forall|reading: spec_fn(Seq<char>) -> Option<IpAddress>| #[trigger]
            parses_as(parse, reading) ==> target_outcome(result) == target_under(
                peer@,
                key@,
                valid_key,
                bound,
                reading,
            ),
{
    if !valid_key {
        return Err(TransferError::invalid("invalid device public key"));
    }
    if !bound {
        return Err(TransferError::invalid("device identifier does not match its public key"));
    }
    let addresses = read_addresses(&peer.addresses, parse);
    if addresses.len() == 0 || peer.port == 0 {
        return Err(TransferError::invalid("device network address is unavailable"));
    }
    let mut connection_addresses: Vec<Endpoint> = Vec::new();
    while connection_addresses.len() < addresses.len()
        invariant
            connection_addresses@.len() <= addresses@.len(),
            forall|place: int|
                0 <= place < connection_addresses@.len() ==> #[trigger] connection_addresses@[place]
                    == (Endpoint { address: addresses@[place], port: peer.port }),
        decreases addresses@.len() - connection_addresses@.len(),
    {
        let address = addresses[connection_addresses.len()];
        connection_addresses.push(Endpoint { address, port: peer.port });
    }
    assert(connection_addresses@ =~= with_port(addresses@, peer.port));
    let certificate_sha256 = match decode_hex(peer.certificate_sha256.as_str()) {
        Ok(digest) => digest,
        Err(error) => {
            return Err(error);
        },
    };
    if certificate_sha256.len() != CERTIFICATE_DIGEST_BYTES {
        return Err(TransferError::invalid("invalid device certificate digest"));
    }
    Ok(
        PeerAdvertisement {
            device_id: peer.id.clone(),
            public_key: key,
            name: peer.name.clone(),
            platform: peer.platform.clone(),
            model: peer.model.clone(),
            addresses,
            connection_addresses,
            port: peer.port,
            certificate_sha256,
            last_seen_at_ms: peer.last_seen_at_ms,
        },
    )
}

/// The record by which a peer is connected to. `valid_id` says whether its
/// identifier is one, `valid_key` whether some bytes are a key, `belongs`
/// whether a key belongs to the peer's identifier; `parse` reads a text as an
/// IP address.
pub fn peer_advertisement<
    K: Fn(&Vec<u8>) -> bool,
    B: Fn(&Vec<u8>) -> bool,
    F: Fn(&str) -> Option<IpAddress>,
>(peer: &NearbyPeer, valid_id: bool, valid_key: K, belongs: B, parse: F) -> (result: Result<
    PeerAdvertisement,
    TransferError,
>)
    requires
        forall|key: Vec<u8>| #[trigger] valid_key.requires((&key,)),
        forall|key: Vec<u8>| #[trigger] belongs.requires((&key,)),
        forall|text: &str| #[trigger] parse.requires((text,)),
    ensures
        forall|
            keys: spec_fn(Seq<u8>) -> bool,
            owners: spec_fn(Seq<u8>) -> bool,
            reading: spec_fn(Seq<char>) -> Option<IpAddress>,
        | #[trigger]
            judges_as(valid_key, keys) && #[trigger] judges_as(belongs, owners) && #[trigger]
            parses_as(parse, reading) ==> target_outcome(result) == target(
                peer@,
                valid_id,
                keys,
                owners,
                reading,
            ),
{
    if !valid_id {
        return Err(TransferError::invalid("invalid device identity"));
    }
    let key = match decode_key(peer.public_key.as_str()) {
        Ok(key) => key,
        Err(error) => {
            return Err(error);
        },
    };
    let valid = valid_key(&key);
    let bound = if valid {
        belongs(&key)
    } else {
        false
    };
    peer_advertisement_under(peer, key, valid, bound, parse)
}

/// How a peer is connected to.
#[derive(Debug, Clone, Copy, PartialEq, Eq, Structural)]
pub enum ConnectBy {
    /// By the record that the network holds of it, which keeps the scope that
    /// a link-local address needs.
    Discovery,
    /// By the record that is made of what is shown of it.
    Advertisement,
}

/// How a peer is connected to: by the record that the network holds of it,
/// where it is `discovered`.
pub fn connection_by(discovered: bool) -> (by: ConnectBy)
    ensures
        by == (if discovered {
            ConnectBy::Discovery
        } else {
            ConnectBy::Advertisement
        }),
{
    if discovered {
        ConnectBy::Discovery
    } else {
        ConnectBy::Advertisement
    }
}

/// A peer is connected to only under a key that belongs to its identifier, at
/// an address that is known, on the port on which it listens, and with its
/// certificate pinned.
pub proof fn only_bound_keys_are_connected_to(
    peer: PeerModel,
    valid_id: bool,
    keys: spec_fn(Seq<u8>) -> bool,
    owners: spec_fn(Seq<u8>) -> bool,
    reading: spec_fn(Seq<char>) -> Option<IpAddress>,
)
    ensures
        target(peer, valid_id, keys, owners, reading) matches Ok(target) ==> {
            &&& target.device_id == peer.id
            &&& base64_bytes(peer.public_key) == Some(target.public_key)
            &&& keys(target.public_key)
            &&& owners(target.public_key)
            &&& target.connection_addresses.len() > 0
            &&& target.port != 0
            &&& target.certificate_sha256.len() == CERTIFICATE_DIGEST_BYTES
        },
{
}

/// The addresses that can be read are kept, in their order, and each is reached
/// on the port.
pub proof fn readable_addresses_are_kept_in_order(
    list: Seq<Seq<char>>,
    text: Seq<char>,
    reading: spec_fn(Seq<char>) -> Option<IpAddress>,
    port: u16,
)
    ensures
        readable(Seq::empty(), reading).len() == 0,
        readable(list.push(text), reading) == (match reading(text) {
            Some(address) => readable(list, reading).push(address),
            None => readable(list, reading),
        }),
        with_port(readable(list, reading), port).len() == readable(list, reading).len(),
        forall|place: int|
            0 <= place < readable(list, reading).len() ==> (#[trigger] with_port(
                readable(list, reading),
                port,
            )[place]).port == port && with_port(readable(list, reading), port)[place].address
                == readable(list, reading)[place],
{
    assert(list.push(text).drop_last() =~= list);
}

/// A peer is connected to as it is listed: under its own name, at all of its
/// addresses that can be read, on its port, and with its certificate pinned. That
/// is refused exactly where its identifier or key is none, the key is not its
/// own, no address can be read, it has no port, or its certificate is none.
pub proof fn a_listed_peer_is_connected_to_as_listed(
    peer: PeerModel,
    valid_id: bool,
    keys: spec_fn(Seq<u8>) -> bool,
    owners: spec_fn(Seq<u8>) -> bool,
    reading: spec_fn(Seq<char>) -> Option<IpAddress>,
)
    ensures
        target(peer, valid_id, keys, owners, reading) is Ok <==> {
            &&& valid_id
            &&& base64_bytes(peer.public_key) matches Some(key) && keys(key) && owners(key)
            &&& readable(peer.addresses, reading).len() > 0
            &&& peer.port != 0
            &&& hex_bytes(peer.certificate_sha256) matches Some(digest) && digest.len() == 32
        },
        target(peer, valid_id, keys, owners, reading) matches Ok(target) ==> {
            &&& target.device_id == peer.id
            &&& target.name == peer.name
            &&& target.platform == peer.platform
            &&& target.model == peer.model
            &&& target.port == peer.port
            &&& target.last_seen_at_ms == peer.last_seen_at_ms
            &&& base64_bytes(peer.public_key) == Some(target.public_key)
            &&& hex_bytes(peer.certificate_sha256) == Some(target.certificate_sha256)
            &&& target.addresses == readable(peer.addresses, reading)
            &&& target.connection_addresses.len() == target.addresses.len()
            &&& forall|place: int|
                0 <= place < target.addresses.len() ==> (
                #[trigger] target.connection_addresses[place]).port == peer.port
                    && target.connection_addresses[place].address == target.addresses[place]
        },
{
}

/// A device that announces itself with a port, an address that can be read and
/// a certificate can be connected to as soon as it is listed.
pub proof fn a_found_device_can_be_connected_to(
    device: crate::application::manager::discovery::AdvertisementModel,
    peer: PeerModel,
    keys: spec_fn(Seq<u8>) -> bool,
    owners: spec_fn(Seq<u8>) -> bool,
    reading: spec_fn(Seq<char>) -> Option<IpAddress>,
    place: int,
)
    requires
        crate::application::manager::discovery::as_announced(peer, device),
        base64_bytes(super::encoding::base64_text(device.public_key)) == Some(device.public_key),
        keys(device.public_key),
        owners(device.public_key),
        device.port != 0,
        device.certificate_sha256.len() == 32,
        0 <= place < device.addresses.len(),
        reading(device.addresses[place]) is Some,
    ensures
        target(peer, true, keys, owners, reading) matches Ok(target) && {
            &&& target.port == device.port
            &&& target.public_key == device.public_key
            &&& target.certificate_sha256 == device.certificate_sha256
            &&& target.addresses.contains(reading(device.addresses[place])->0)
        },
{
    super::encoding::hex_reads_back(device.certificate_sha256);
    a_readable_address_is_kept(device.addresses, reading, place);
}

proof fn a_readable_address_is_kept(
    list: Seq<Seq<char>>,
    reading: spec_fn(Seq<char>) -> Option<IpAddress>,
    place: int,
)
    requires
        0 <= place < list.len(),
        reading(list[place]) is Some,
    ensures
        readable(list, reading).contains(reading(list[place])->0),
    decreases list.len(),
{
    let kept = readable(list, reading);
    if place == list.len() - 1 {
        assert(kept[kept.len() - 1] == reading(list.last())->0);
    } else {
        let front = list.drop_last();
        assert(front[place] == list[place]);
        a_readable_address_is_kept(front, reading, place);
        let spot = choose|spot: int|
            0 <= spot < readable(front, reading).len() && readable(front, reading)[spot]
                == reading(list[place])->0;
        assert(kept[spot] == reading(list[place])->0);
    }
}

} // verus!
