//! The transfer core of ArcRelay's LAN file transfer.
//!
//! The crate holds the rules of a transfer as pure state and decisions: what a
//! valid offer is, which status may follow which, how progress is accounted,
//! which path may be written, when a received file is good. Everything that
//! touches a socket, a disk or a clock stays with the caller, which hands
//! plain values in and performs the action that comes back.

pub mod application;
pub mod domain;
pub mod error;
pub mod infrastructure;
pub mod order;
pub mod subscription;
pub mod table;
pub mod text;

pub use application::{TransferConfig, TransferManager};
pub use domain::{
    FileKind, NearbyPeer, ReceivePolicy, TransferDirection, TransferEvent, TransferFileProgress,
    TransferFileView, TransferProgress, TransferSnapshot, TransferStatus, TransferView,
};
pub use error::TransferError;
pub use subscription::TransferSubscription;
