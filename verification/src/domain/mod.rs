//! Peers, receive policies and transfers, with the rules that bind them.

pub mod peer;
pub mod policy;
pub mod transfer;

pub use peer::NearbyPeer;
pub use policy::ReceivePolicy;
pub use transfer::{
    FileKind, TransferDirection, TransferEvent, TransferFileProgress, TransferFileView,
    TransferProgress, TransferSnapshot, TransferStatus, TransferView,
};
