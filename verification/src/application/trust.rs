//! Which peers are paired.

use crate::error::{ErrorModel, TransferError};
use vstd::prelude::*;

verus! {

/// A device that has been paired with this one.
#[derive(Debug, PartialEq, Eq)]
pub struct PairedPeer {
    pub device_id: String,
    pub public_key: Vec<u8>,
}

/// What the network knows of the trust in one peer.
#[derive(Debug, PartialEq, Eq)]
pub struct Trust {
    /// The peer's identifier in its one written form, unless it is none.
    pub device_id: Option<String>,
    /// All paired devices, or why they could not be listed. No device is
    /// paired while there is no network.
    pub peers: Result<Vec<PairedPeer>, String>,
}

/// The mathematical value of a [`PairedPeer`].
pub struct PairedModel {
    pub device_id: Seq<char>,
    pub public_key: Seq<u8>,
}

impl View for PairedPeer {
    type V = PairedModel;

    open spec fn view(&self) -> PairedModel {
        PairedModel { device_id: self.device_id@, public_key: self.public_key@ }
    }
}

/// The mathematical value of a [`Trust`].
pub struct TrustModel {
    pub device_id: Option<Seq<char>>,
    pub peers: Result<Seq<PairedModel>, Seq<char>>,
}

impl View for Trust {
    type V = TrustModel;

    open spec fn view(&self) -> TrustModel {
        TrustModel {
            device_id: crate::domain::transfer::optional_text(self.device_id),
            peers: match self.peers {
                Ok(peers) => Ok(peers@.map_values(|peer: PairedPeer| peer@)),
                Err(message) => Err(message@),
            },
        }
    }
}

/// Whether one of the paired devices is the one with that identifier and, where
/// a key is given, that key.
pub open spec fn lists_peer(
    peers: Seq<PairedModel>,
    device_id: Seq<char>,
    public_key: Option<Seq<u8>>,
) -> bool {
    exists|place: int|
        0 <= place < peers.len() && matches_peer(#[trigger] peers[place], device_id, public_key)
}

/// Whether a paired device is the one with that identifier and, where a key is
/// given, that key.
pub open spec fn matches_peer(
    peer: PairedModel,
    device_id: Seq<char>,
    public_key: Option<Seq<u8>>,
) -> bool {
    peer.device_id == device_id && (public_key matches Some(key) ==> peer.public_key == key)
}

impl TrustModel {
    /// Whether the peer is paired, under the key where one is given.
    pub open spec fn paired(self, public_key: Option<Seq<u8>>) -> Result<bool, ErrorModel> {
        match self.device_id {
            None => Ok(false),
            Some(device_id) => match self.peers {
                Err(message) => Err(ErrorModel::Network(message)),
                Ok(peers) => Ok(lists_peer(peers, device_id, public_key)),
            },
        }
    }
}

/// The bytes of a key that may not be given.
pub open spec fn optional_key(public_key: Option<&Vec<u8>>) -> Option<Seq<u8>> {
    match public_key {
        Some(key) => Some(key@),
        None => None,
    }
}

impl Trust {
    /// Whether the peer is paired, under the key where one is given.
    pub fn is_paired_peer(&self, public_key: Option<&Vec<u8>>) -> (result: Result<
        bool,
        TransferError,
    >)
        ensures
            (match result {
                Ok(paired) => Ok::<bool, ErrorModel>(paired),
                Err(error) => Err(error@),
            }) == self@.paired(optional_key(public_key)),
    {
        let device_id = match &self.device_id {
            Some(device_id) => device_id,
            None => {
                return Ok(false);
            },
        };
        let peers = match &self.peers {
            Ok(peers) => peers,
            Err(message) => {
                return Err(TransferError::Network(message.clone()));
            },
        };
        let ghost models = peers@.map_values(|peer: PairedPeer| peer@);
        let mut place: usize = 0;
        while place < peers.len()
            invariant
                place <= peers@.len(),
                models == peers@.map_values(|peer: PairedPeer| peer@),
                self@.device_id == Some(device_id@),
                self@.peers == Ok::<_, Seq<char>>(models),
                forall|earlier: int|
                    0 <= earlier < place ==> !matches_peer(
                        #[trigger] models[earlier],
                        device_id@,
                        optional_key(public_key),
                    ),
            decreases peers@.len() - place,
        {
            assert(models[place as int] == peers@[place as int]@);
            let same_key = match public_key {
                Some(key) => crate::infrastructure::grants::same_bytes(
                    &peers[place].public_key,
                    key,
                ),
                None => true,
            };
            if peers[place].device_id == *device_id && same_key {
                assert(lists_peer(models, device_id@, optional_key(public_key)));
                return Ok(true);
            }
            place += 1;
        }
        Ok(false)
    }
}

/// Whether a session may make an offer, given whether it is one with a paired
/// device and what came of asking for the grant to send: one with a paired
/// device needs the grant, any other is left to be asked about.
pub open spec fn admitted(
    paired: Result<bool, Seq<char>>,
    granted: Option<Result<(), Seq<char>>>,
) -> Result<(), ErrorModel> {
    match paired {
        Err(message) => Err(ErrorModel::Network(message)),
        Ok(false) => Ok(()),
        Ok(true) => match granted {
            Some(Ok(_)) => Ok(()),
            Some(Err(message)) => Err(ErrorModel::Network(message)),
            None => Err(ErrorModel::Network("transfer grant has not been asked for"@)),
        },
    }
}

/// The answer of the network as plain values.
pub open spec fn answer<T>(result: Result<T, String>) -> Result<T, Seq<char>> {
    match result {
        Ok(value) => Ok(value),
        Err(message) => Err(message@),
    }
}

/// What came of asking for a grant, if it was asked for, as plain values.
pub open spec fn grant_answer(granted: Option<Result<(), String>>) -> Option<
    Result<(), Seq<char>>,
> {
    match granted {
        Some(result) => Some(answer(result)),
        None => None,
    }
}

/// Whether a session may make an offer. `paired` says whether it is one with a
/// paired device; `granted` what came of asking for the grant to send, which is
/// asked for where it is.
pub fn admission(paired: Result<bool, String>, granted: Option<Result<(), String>>) -> (result:
    Result<(), TransferError>)
    ensures
        crate::error::outcome(result) == admitted(answer(paired), grant_answer(granted)),
{
    match paired {
        Err(message) => Err(TransferError::Network(message)),
        Ok(false) => Ok(()),
        Ok(true) => match granted {
            Some(Ok(_)) => Ok(()),
            Some(Err(message)) => Err(TransferError::Network(message)),
            None => Err(TransferError::network("transfer grant has not been asked for")),
        },
    }
}

/// A session with a paired device is let in only with the grant to send, and one
/// with any other device never needs it.
pub proof fn paired_sessions_need_the_grant(
    paired: bool,
    granted: Option<Result<(), Seq<char>>>,
)
    ensures
        admitted(Ok(paired), granted) is Ok <==> !paired || granted matches Some(Ok(_)),
{
}

/// A peer is paired exactly where a paired device has its identifier and, where
/// its key is known, its key: neither the identifier nor the key of another is
/// enough. Where its identifier is none it is not paired, and where the paired
/// devices cannot be listed there is no answer.
pub proof fn pairing_goes_by_identifier_and_key(
    device_id: Seq<char>,
    peers: Seq<PairedModel>,
    key: Seq<u8>,
    message: Seq<char>,
)
    ensures
        (TrustModel { device_id: Some(device_id), peers: Ok(peers) }).paired(Some(key)) == Ok::<
            _,
            ErrorModel,
        >(peers.contains(PairedModel { device_id, public_key: key })),
        (TrustModel { device_id: Some(device_id), peers: Ok(peers) }).paired(None) matches Ok(paired)
            && (paired <==> exists|place: int|
            0 <= place < peers.len() && (#[trigger] peers[place]).device_id == device_id),
        (TrustModel { device_id: None, peers: Ok(peers) }).paired(Some(key)) == Ok::<
            _,
            ErrorModel,
        >(false),
        (TrustModel { device_id: Some(device_id), peers: Err(message) }).paired(Some(key)) == Err::<
            bool,
            _,
        >(ErrorModel::Network(message)),
{
    let wanted = PairedModel { device_id, public_key: key };
    if peers.contains(wanted) {
        let place = choose|place: int| 0 <= place < peers.len() && peers[place] == wanted;
        assert(matches_peer(peers[place], device_id, Some(key)));
    }
    if lists_peer(peers, device_id, Some(key)) {
        let place = choose|place: int|
            0 <= place < peers.len() && matches_peer(#[trigger] peers[place], device_id, Some(key));
        assert(peers[place] == wanted);
    }
    if lists_peer(peers, device_id, None) {
        let place = choose|place: int|
            0 <= place < peers.len() && matches_peer(#[trigger] peers[place], device_id, None);
        assert(peers[place].device_id == device_id);
    }
    if exists|place: int|
        0 <= place < peers.len() && (#[trigger] peers[place]).device_id == device_id {
        let place = choose|place: int|
            0 <= place < peers.len() && (#[trigger] peers[place]).device_id == device_id;
        assert(matches_peer(peers[place], device_id, None));
    }
}

/// Where the network cannot say whether a session is paired, or refuses the
/// grant to a paired one, its message is the reason why it may not send.
pub proof fn a_refusal_gives_the_reason(message: Seq<char>, granted: Option<Result<(), Seq<char>>>)
    ensures
        admitted(Err(message), granted) == Err::<(), _>(ErrorModel::Network(message)),
        admitted(Ok(true), Some(Err(message))) == Err::<(), _>(ErrorModel::Network(message)),
{
}

} // verus!
