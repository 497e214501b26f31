//! Networking core of a mouse and keyboard sharing service: wire codecs, traffic
//! lanes, session-epoch tracking, peer trust, discovery and transfer bookkeeping.
//!
//! Everything here is a decision over plain values. Sockets, clocks, files and
//! tasks belong to the program that drives the library.

#![allow(unused_imports)]

use vstd::prelude::*;

pub mod bootstrap;
pub mod buffer;
pub mod codec;
pub mod connection;
pub mod discovery;
pub mod encryption;
pub mod file_jobs;
pub mod file_sources;
pub mod file_transfer;
pub mod handshake;
pub mod ids;
pub mod inbound;
pub mod lanes;
pub mod media_transport;
pub mod message;
pub mod network_manager;
pub mod qos;
pub mod registry;
pub mod reliable_wire;
pub mod sender;
pub mod table;
pub mod text;
pub mod transport;
pub mod types;
pub mod wire;

pub use codec::{
    ControlMessageCodec, MessageCodec, MessageDecoder, RealtimeInputCodec, ReliableInputCodec,
};
pub use discovery::{
    broadcast_address, DiscoveredDevice, DiscoveryConfig, DiscoveryEvent, ServiceDiscovery,
};
pub use encryption::{
    Encryption, PeerCertificateFingerprint, QuicIdentity, QuicTrustDecision, QuicTrustStore,
};
pub use network_manager::{NetworkEvent, NetworkManagerConfig};
pub use qos::{BulkFrame, ControlFrame, TelemetryFrame};
pub use transport::{
    ConnectionPool, FanoutEnqueueFailure, FanoutEnqueueFailureKind, FanoutEnqueueReceipt,
    QuicServerStartError, ReliableFrame, TransportConfig, TransportConnectionDiagnostics,
};

verus! {

} // verus!
