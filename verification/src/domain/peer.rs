//! Devices nearby and the addresses they can be reached at.

use crate::error::{ErrorModel, TransferError};
use crate::text::texts;
use vstd::prelude::*;

verus! {

/// A device seen on the network.
#[derive(Debug, PartialEq, Eq)]
pub struct NearbyPeer {
    pub id: String,
    pub name: String,
    pub platform: String,
    pub model: String,
    pub address: String,
    pub addresses: Vec<String>,
    pub port: u16,
    pub public_key: String,
    pub certificate_sha256: String,
    pub paired: bool,
    pub automatic_receive: bool,
    pub last_seen_at_ms: i64,
}

/// The mathematical value of a [`NearbyPeer`].
pub struct PeerModel {
    pub id: Seq<char>,
    pub name: Seq<char>,
    pub platform: Seq<char>,
    pub model: Seq<char>,
    pub address: Seq<char>,
    pub addresses: Seq<Seq<char>>,
    pub port: u16,
    pub public_key: Seq<char>,
    pub certificate_sha256: Seq<char>,
    pub paired: bool,
    pub automatic_receive: bool,
    pub last_seen_at_ms: i64,
}

impl View for NearbyPeer {
    type V = PeerModel;

    open spec fn view(&self) -> PeerModel {
        PeerModel {
            id: self.id@,
            name: self.name@,
            platform: self.platform@,
            model: self.model@,
            address: self.address@,
            addresses: texts(self.addresses@),
            port: self.port,
            public_key: self.public_key@,
            certificate_sha256: self.certificate_sha256@,
            paired: self.paired,
            automatic_receive: self.automatic_receive,
            last_seen_at_ms: self.last_seen_at_ms,
        }
    }
}

impl Clone for NearbyPeer {
    fn clone(&self) -> (copy: Self)
        ensures
            copy@ == self@,
    {
        let copy = NearbyPeer {
            id: self.id.clone(),
            name: self.name.clone(),
            platform: self.platform.clone(),
            model: self.model.clone(),
            address: self.address.clone(),
            addresses: self.addresses.clone(),
            port: self.port,
            public_key: self.public_key.clone(),
            certificate_sha256: self.certificate_sha256.clone(),
            paired: self.paired,
            automatic_receive: self.automatic_receive,
            last_seen_at_ms: self.last_seen_at_ms,
        };
        assert(copy@.addresses =~= self@.addresses);
        copy
    }
}

/// An IP address, as the number that its octets spell.
#[derive(Debug, Clone, Copy, PartialEq, Eq, Structural)]
pub enum IpAddress {
    V4(u32),
    V6(u128),
}

/// An IP address and a port.
#[derive(Debug, Clone, Copy, PartialEq, Eq, Structural)]
pub struct Endpoint {
    pub address: IpAddress,
    pub port: u16,
}

/// The distinct endpoints among the addresses that could be parsed, each at
/// the place where it came first.
pub open spec fn distinct_endpoints(parsed: Seq<Option<IpAddress>>, port: u16) -> Seq<Endpoint>
    decreases parsed.len(),
{
    if parsed.len() == 0 {
        Seq::empty()
    } else {
        let before = distinct_endpoints(parsed.drop_last(), port);
        match parsed.last() {
            Some(address) => {
                let endpoint = Endpoint { address, port };
                if before.contains(endpoint) {
                    before
                } else {
                    before.push(endpoint)
                }
            },
            None => before,
        }
    }
}

/// Whether `parse` reads every text as `reading` does.
pub open spec fn parses_as<F: Fn(&str) -> Option<IpAddress>>(
    parse: F,
    reading: spec_fn(Seq<char>) -> Option<IpAddress>,
) -> bool {
    forall|text: &str, address: Option<IpAddress>| #[trigger]
        parse.ensures((text,), address) ==> address == reading(text@)
}

impl PeerModel {
    /// What the address texts of the peer read as, the preferred one first.
    pub open spec fn parsed(self, reading: spec_fn(Seq<char>) -> Option<IpAddress>) -> Seq<
        Option<IpAddress>,
    > {
        seq![reading(self.address)] + self.addresses.map_values(reading)
    }
}

/// The distinct endpoints among parsed addresses.
fn without_repetition(parsed: &Vec<Option<IpAddress>>, port: u16) -> (endpoints: Vec<Endpoint>)
    ensures
        endpoints@ == distinct_endpoints(parsed@, port),
{
    let mut endpoints: Vec<Endpoint> = Vec::new();
    let mut index: usize = 0;
    while index < parsed.len()
        invariant
            index <= parsed@.len(),
            endpoints@ == distinct_endpoints(parsed@.take(index as int), port),
        decreases parsed@.len() - index,
    {
        proof {
            assert(parsed@.take(index + 1).drop_last() =~= parsed@.take(index as int));
        }
        match parsed[index] {
            Some(address) => {
                let endpoint = Endpoint { address, port };
                let mut known = false;
                let mut place: usize = 0;
                while place < endpoints.len()
                    invariant
                        place <= endpoints@.len(),
                        known == exists|earlier: int|
                            0 <= earlier < place && endpoints@[earlier] == endpoint,
                    decreases endpoints@.len() - place,
                {
                    if endpoints[place] == endpoint {
                        known = true;
                    }
                    place += 1;
                }
                if !known {
                    endpoints.push(endpoint);
                }
            },
            None => {},
        }
        index += 1;
    }
    proof {
        assert(parsed@.take(parsed@.len() as int) =~= parsed@);
    }
    endpoints
}

impl NearbyPeer {
    /// The first endpoint to try. `parse` is as for [`NearbyPeer::endpoints`].
    pub fn endpoint<F: Fn(&str) -> Option<IpAddress>>(&self, parse: F) -> (result: Result<
        Endpoint,
        TransferError,
    >)
        requires
            forall|text: &str| #[trigger] parse.requires((text,)),
        ensures
            forall|reading: spec_fn(Seq<char>) -> Option<IpAddress>| #[trigger]
                parses_as(parse, reading) ==> {
                    let endpoints = distinct_endpoints(self@.parsed(reading), self.port);
                    match result {
                        Ok(endpoint) => endpoints.len() > 0 && endpoint == endpoints[0],
                        Err(_) => endpoints.len() == 0,
                    }
                },
            result matches Err(error) ==> error@ == ErrorModel::Invalid("invalid peer address"@),
    {
        match self.endpoints(parse) {
            Ok(endpoints) => Ok(endpoints[0]),
            Err(error) => Err(error),
        }
    }

    /// Every endpoint of the peer, without repetition, in the order of its
    /// addresses. `parse` reads a text as an IP address; a text that is none
    /// is passed over.
    pub fn endpoints<F: Fn(&str) -> Option<IpAddress>>(&self, parse: F) -> (result: Result<
        Vec<Endpoint>,
        TransferError,
    >)
        requires
            forall|text: &str| #[trigger] parse.requires((text,)),
        ensures
            forall|reading: spec_fn(Seq<char>) -> Option<IpAddress>| #[trigger]
                parses_as(parse, reading) ==> {
                    let endpoints = distinct_endpoints(self@.parsed(reading), self.port);
                    match result {
                        Ok(found) => found@ == endpoints,
                        Err(_) => endpoints.len() == 0,
                    }
                },
            match result {
                Ok(found) => found@.len() > 0,
                Err(error) => error@ == ErrorModel::Invalid("invalid peer address"@),
            },
    {
        let mut parsed: Vec<Option<IpAddress>> = Vec::new();
        parsed.push(parse(self.address.as_str()));
        let mut index: usize = 0;
        while index < self.addresses.len()
            invariant
                index <= self.addresses@.len(),
                forall|text: &str| #[trigger] parse.requires((text,)),
                forall|reading: spec_fn(Seq<char>) -> Option<IpAddress>| #[trigger]
                    parses_as(parse, reading) ==> parsed@ =~= self@.parsed(reading).take(
                        index + 1,
                    ),
            decreases self.addresses@.len() - index,
        {
            let address = parse(self.addresses[index].as_str());
            parsed.push(address);
            index += 1;
        }
        let endpoints = without_repetition(&parsed, self.port);
        proof {
            assert forall|reading: spec_fn(Seq<char>) -> Option<IpAddress>| #[trigger]
                parses_as(parse, reading) implies endpoints@ == distinct_endpoints(
                self@.parsed(reading),
                self.port,
            ) by {
                assert(self@.parsed(reading).take(index + 1) =~= self@.parsed(reading));
            }
        }
        if endpoints.len() == 0 {
            return Err(TransferError::invalid("invalid peer address"));
        }
        Ok(endpoints)
    }
}

/// The endpoints of a peer are pairwise distinct, and are exactly the addresses
/// that could be parsed, each with the peer's port.
pub proof fn endpoints_are_distinct_and_complete(parsed: Seq<Option<IpAddress>>, port: u16)
    ensures
        distinct_endpoints(parsed, port).no_duplicates(),
        forall|endpoint: Endpoint| #[trigger]
            distinct_endpoints(parsed, port).contains(endpoint) <==> (endpoint.port == port
                && parsed.contains(Some(endpoint.address))),
    decreases parsed.len(),
{
    let all = distinct_endpoints(parsed, port);
    if parsed.len() > 0 {
        let shorter = parsed.drop_last();
        let before = distinct_endpoints(shorter, port);
        endpoints_are_distinct_and_complete(shorter, port);
        assert forall|endpoint: Endpoint| #[trigger] all.contains(endpoint) implies endpoint.port
            == port && parsed.contains(Some(endpoint.address)) by {
            if before.contains(endpoint) {
                let found = shorter.index_of(Some(endpoint.address));
                assert(parsed[found] == Some(endpoint.address));
            } else {
                assert(parsed[parsed.len() - 1] == Some(endpoint.address));
            }
        }
        assert forall|endpoint: Endpoint|
            endpoint.port == port && parsed.contains(Some(endpoint.address)) implies #[trigger]
            all.contains(endpoint) by {
            let found = parsed.index_of(Some(endpoint.address));
            if found < parsed.len() - 1 {
                assert(shorter[found] == Some(endpoint.address));
                assert(before.contains(endpoint));
                let place = before.index_of(endpoint);
                assert(all[place] == endpoint);
            } else if !before.contains(endpoint) {
                assert(all[all.len() - 1] == endpoint);
            }
        }
    }
}

/// A peer is reached at its preferred address first, where that can be read; and
/// one more address that can be read and is new comes behind the others.
pub proof fn the_preferred_address_comes_first(
    peer: PeerModel,
    reading: spec_fn(Seq<char>) -> Option<IpAddress>,
    parsed: Seq<Option<IpAddress>>,
    next: Option<IpAddress>,
    port: u16,
)
    ensures
        peer.parsed(reading).len() == peer.addresses.len() + 1,
        peer.parsed(reading)[0] == reading(peer.address),
        forall|place: int|
            0 <= place < peer.addresses.len() ==> #[trigger] peer.parsed(reading)[place + 1]
                == reading(peer.addresses[place]),
        distinct_endpoints(Seq::empty(), port).len() == 0,
        distinct_endpoints(parsed.push(next), port) == (match next {
            Some(address) => if distinct_endpoints(parsed, port).contains(
                Endpoint { address, port },
            ) {
                distinct_endpoints(parsed, port)
            } else {
                distinct_endpoints(parsed, port).push(Endpoint { address, port })
            },
            None => distinct_endpoints(parsed, port),
        }),
        reading(peer.address) matches Some(address) ==> distinct_endpoints(
            peer.parsed(reading),
            port,
        ).len() > 0 && distinct_endpoints(peer.parsed(reading), port)[0] == (Endpoint {
            address,
            port,
        }),
{
    assert(parsed.push(next).drop_last() =~= parsed);
    if let Some(address) = reading(peer.address) {
        first_endpoint_stays_first(peer.parsed(reading), port);
    }
}

proof fn first_endpoint_stays_first(parsed: Seq<Option<IpAddress>>, port: u16)
    requires
        parsed.len() > 0,
        parsed[0] is Some,
    ensures
        distinct_endpoints(parsed, port).len() > 0,
        distinct_endpoints(parsed, port)[0] == (Endpoint { address: parsed[0]->0, port }),
    decreases parsed.len(),
{
    let front = parsed.drop_last();
    if parsed.len() > 1 {
        assert(front[0] == parsed[0]);
        first_endpoint_stays_first(front, port);
    } else {
        assert(distinct_endpoints(front, port).len() == 0);
        assert(parsed.last() == parsed[0]);
    }
}

} // verus!
