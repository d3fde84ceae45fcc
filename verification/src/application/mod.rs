//! The use cases: what the service keeps and how each request changes it.

pub mod config;
pub mod control;
pub mod history;
pub mod incoming;
pub mod manager;
pub mod outgoing;
pub mod policies;
pub mod trust;

pub use config::TransferConfig;
pub use manager::TransferManager;
