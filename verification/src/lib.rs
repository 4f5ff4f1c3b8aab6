//! Management of QEMU guests on a host: a command-execution fabric (local or
//! over SSH, with exponential-backoff connection establishment) and a
//! multi-disk snapshot consistency engine.
//!
//! The library itself performs no I/O: it builds the exact argument vectors of
//! every external command, interprets captured command outcomes, and decides
//! every lifecycle step. A thin driver executes the commands it is handed.

pub mod command;
pub mod config;
pub mod connection;
pub mod errors;
pub mod lifecycle;
pub mod listing;
pub mod operations;
pub mod paths;
pub mod render;
pub mod snapshots;
pub mod transfer;

pub use command::Invocation;
pub use command::RawOutcome;
pub use config::App;
pub use config::Disk;
pub use config::Guest;
pub use config::Network;
pub use config::NetworkInterface;
pub use config::default_disk_model;
pub use config::default_host;
pub use config::default_network_interface_model;
pub use connection::BackoffDecision;
pub use connection::ConnectionEstablisher;
pub use connection::GuestConnection;
pub use connection::HostConnection;
pub use connection::SshConnection;
pub use errors::Error;
pub use errors::MissingInputPathOrStdinError;
pub use snapshots::Snapshot;
pub use snapshots::Timestamp;
