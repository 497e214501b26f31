//! Connections as the transport sees them: settings, what goes out, who is at the other
//! end, and the pool of connections in use.

use vstd::prelude::*;

use crate::codec::{
    frames_count_what_follows, length_prefixed, message_frame, message_tag, ControlMessageCodec,
    MAX_MESSAGE_SIZE,
};
use crate::encryption::{
    pins_after, trust_of, PeerCertificateFingerprint, QuicTrustDecision, QuicTrustStore,
};
use crate::handshake::{is_bootstrap, is_bootstrap_message, BOOTSTRAP_MAX_MESSAGE_SIZE};
use crate::ids::{
    ascending_by_text, devices_are_ordered_as_their_texts, is_canonical_uuid, uuid_text,
};
use crate::message::Message;
use crate::qos::with_length;
use crate::table::{strictly_ascending, DeviceTable};
use crate::text::{
    pairs_are_ordered_by_their_first_texts, pairs_sorted, pairs_view, sort_pairs, text_before,
    TextPair,
};
use crate::types::{ControlConnectionId, DeviceId};
use crate::wire::number;

verus! {

broadcast use crate::wire::group_be_lengths;

/// Why a server is not started.
#[derive(Debug, Clone, Copy, PartialEq, Eq, Structural)]
pub enum QuicServerStartError {
    /// One is registered; it has to be closed first.
    AlreadyRunning,
}

/// Whether a server may be started: none may be registered, running or not.
pub fn check_server_start(has_endpoint: bool, has_task: bool) -> (allowed: Result<
    (),
    QuicServerStartError,
>)
    ensures
        match allowed {
            Ok(()) => !has_endpoint && !has_task,
            Err(error) => (has_endpoint || has_task) && error
                == QuicServerStartError::AlreadyRunning,
        },
{
    if has_endpoint || has_task {
        Err(QuicServerStartError::AlreadyRunning)
    } else {
        Ok(())
    }
}

/// Settings of the transport.
#[derive(Debug, Clone, Copy, PartialEq, Eq, Structural)]
pub struct TransportConfig {
    pub max_idle_timeout_ms: u64,
    pub keep_alive_interval_ms: u64,
    pub max_message_size: usize,
    pub datagram_receive_buffer_size: usize,
    pub datagram_send_buffer_size: usize,
}

impl Default for TransportConfig {
    fn default() -> (config: Self)
        ensures
            config.max_idle_timeout_ms == 10_000,
            config.keep_alive_interval_ms == 2_000,
            config.max_message_size == 10 * 1024 * 1024,
            config.datagram_receive_buffer_size == 64 * 1024,
            config.datagram_send_buffer_size == 8 * 1024,
    {
        TransportConfig {
            max_idle_timeout_ms: 10_000,
            keep_alive_interval_ms: 2_000,
            max_message_size: 10 * 1024 * 1024,
            datagram_receive_buffer_size: 64 * 1024,
            datagram_send_buffer_size: 8 * 1024,
        }
    }
}

/// What a reliable stream carries between two lengths.
#[derive(Debug, Clone, PartialEq, Eq)]
pub struct ReliableFrame {
    pub payload: Vec<u8>,
}

/// How a connection is doing.
#[derive(Debug, PartialEq, Eq)]
pub struct TransportConnectionDiagnostics {
    pub address: String,
    pub transport: &'static str,
    pub datagram_available: bool,
    pub rtt_ms: Option<u64>,
    pub last_datagram_rx_ms: Option<u64>,
    pub datagram_tx_dropped: u64,
    pub reliable_stream_reset_count: u64,
    pub cert_trust_state: Option<String>,
}

impl Clone for TransportConnectionDiagnostics {
    fn clone(&self) -> (copy: Self)
        ensures
            copy == *self,
    {
        TransportConnectionDiagnostics {
            address: self.address.clone(),
            transport: self.transport,
            datagram_available: self.datagram_available,
            rtt_ms: self.rtt_ms,
            last_datagram_rx_ms: self.last_datagram_rx_ms,
            datagram_tx_dropped: self.datagram_tx_dropped,
            reliable_stream_reset_count: self.reliable_stream_reset_count,
            cert_trust_state: match &self.cert_trust_state {
                Some(label) => Some(label.clone()),
                None => None,
            },
        }
    }
}

/// How long ago the last datagram came, in milliseconds; `last_us` is 0 where none did.
/// A clock that went back counts as no time at all.
pub fn last_datagram_rx_ms(now_us: u64, last_us: u64) -> (elapsed: Option<u64>)
    ensures
        elapsed == (if last_us == 0 {
            None
        } else if now_us >= last_us {
            Some(((now_us - last_us) / 1000) as u64)
        } else {
            Some(0u64)
        }),
{
    if last_us == 0 {
        return None;
    }
    if now_us >= last_us {
        Some((now_us - last_us) / 1000)
    } else {
        Some(0)
    }
}

/// What is done with an outgoing message.
#[derive(Debug, PartialEq, Eq)]
pub enum OutboundPlan {
    /// It goes out as this datagram; if that fails it is lost, and counted.
    Datagram(Vec<u8>),
    /// It is lost, and counted.
    Drop,
    /// These bytes go on the reliable stream.
    Stream(Vec<u8>),
}

/// Why an outgoing message is refused.
#[derive(Debug, Clone, Copy, PartialEq, Eq, Structural)]
pub enum OutboundError {
    /// Only greetings go out before the peer is authenticated.
    NotBootstrap,
    /// The greeting is too long.
    BootstrapTooLarge,
    /// The message is too long for any frame.
    MessageTooLarge { len: usize },
    /// The framed message is longer than the settings allow.
    ReliableTooLarge { len: usize },
}

/// Whether a message is realtime input of the old form, which may get lost.
pub open spec fn is_legacy_realtime(message: Message) -> bool {
    message is MouseMove || message is GamepadState
}

/// What is done with a message that was encoded to `payload`. `max_datagram` is the
/// longest datagram that the connection takes now.
pub open spec fn outbound_plan(
    complete: bool,
    message: Message,
    payload: Seq<u8>,
    max_message_size: nat,
    max_datagram: Option<usize>,
    plan: Result<OutboundPlan, OutboundError>,
) -> bool {
    let frame = message_frame(message_tag(message), payload);
    if !complete && !is_bootstrap(message) {
        plan == Err::<OutboundPlan, _>(OutboundError::NotBootstrap)
    } else if !complete && payload.len() > BOOTSTRAP_MAX_MESSAGE_SIZE {
        plan == Err::<OutboundPlan, _>(OutboundError::BootstrapTooLarge)
    } else if is_legacy_realtime(message) {
        if payload.len() <= MAX_MESSAGE_SIZE && (max_datagram matches Some(max) && frame.len()
            <= max) {
            plan matches Ok(OutboundPlan::Datagram(bytes)) && bytes@ == frame
        } else {
            plan == Ok::<_, OutboundError>(OutboundPlan::Drop)
        }
    } else if payload.len() > MAX_MESSAGE_SIZE {
        plan == Err::<OutboundPlan, _>(
            OutboundError::MessageTooLarge { len: payload.len() as usize },
        )
    } else if frame.len() > max_message_size {
        plan == Err::<OutboundPlan, _>(
            OutboundError::ReliableTooLarge { len: frame.len() as usize },
        )
    } else {
        plan matches Ok(OutboundPlan::Stream(bytes)) && bytes@ == length_prefixed(frame)
    }
}

/// Decides what is done with a message.
pub fn send_outbound_message(
    complete: bool,
    message: &Message,
    payload: &[u8],
    max_message_size: usize,
    max_datagram: Option<usize>,
) -> (plan: Result<OutboundPlan, OutboundError>)
    ensures
        outbound_plan(
            complete,
            *message,
            payload@,
            max_message_size as nat,
            max_datagram,
            plan,
        ),
{
    let len: usize = payload.len();
    if !complete {
        if !is_bootstrap_message(message) {
            return Err(OutboundError::NotBootstrap);
        }
        if len > BOOTSTRAP_MAX_MESSAGE_SIZE {
            return Err(OutboundError::BootstrapTooLarge);
        }
    }
    let realtime = match message {
        Message::MouseMove { .. } | Message::GamepadState => true,
        _ => false,
    };
    let framed = match ControlMessageCodec::encode(message, payload) {
        Ok(framed) => framed,
        Err(_) => {
            if realtime {
                return Ok(OutboundPlan::Drop);
            }
            return Err(OutboundError::MessageTooLarge { len });
        },
    };
    if realtime {
        if let Some(max) = max_datagram {
            if framed.len() <= max {
                return Ok(OutboundPlan::Datagram(framed));
            }
        }
        return Ok(OutboundPlan::Drop);
    }
    if framed.len() > max_message_size {
        return Err(OutboundError::ReliableTooLarge { len: framed.len() });
    }
    Ok(OutboundPlan::Stream(with_length(framed.as_slice())))
}

/// Before a peer is authenticated nothing but greetings goes out to it.
pub proof fn only_greetings_before_authentication(
    message: Message,
    payload: Seq<u8>,
    max_message_size: nat,
    max_datagram: Option<usize>,
    plan: Result<OutboundPlan, OutboundError>,
)
    requires
        outbound_plan(false, message, payload, max_message_size, max_datagram, plan),
        plan is Ok,
    ensures
        is_bootstrap(message),
        plan->Ok_0 is Stream,
{
}

/// How a trust decision is shown.
pub open spec fn trust_label(decision: QuicTrustDecision) -> Seq<char> {
    match decision {
        QuicTrustDecision::FirstSeen => "first_seen"@,
        QuicTrustDecision::Trusted => "trusted"@,
        QuicTrustDecision::Rejected { .. } => "rejected"@,
    }
}

/// How a trust decision is shown.
pub fn trust_state_label(decision: &QuicTrustDecision) -> (label: &'static str)
    ensures
        label@ == trust_label(*decision),
{
    match decision {
        QuicTrustDecision::FirstSeen => "first_seen",
        QuicTrustDecision::Trusted => "trusted",
        QuicTrustDecision::Rejected { .. } => "rejected",
    }
}

/// How the trust in a peer is shown that has not introduced itself yet.
pub fn pending_trust_label(decision: &QuicTrustDecision) -> (label: &'static str)
    ensures
        label@ == (if decision is FirstSeen {
            "first_seen_pending"@
        } else {
            trust_label(*decision)
        }),
{
    match decision {
        QuicTrustDecision::FirstSeen => "first_seen_pending",
        _ => trust_state_label(decision),
    }
}

/// What is known of a peer that we connected to, before it has introduced itself.
#[derive(Debug, PartialEq, Eq)]
pub struct PendingPeerTrust {
    pub expected_device_id: DeviceId,
    pub fingerprint: PeerCertificateFingerprint,
    pub decision: QuicTrustDecision,
}

/// Why a peer is not trusted.
#[derive(Debug, PartialEq, Eq)]
#[allow(inconsistent_fields)]
pub enum PeerTrustError {
    /// No connection of ours waits for this peer to introduce itself.
    NoPendingIdentity,
    /// The peer has presented no certificate.
    CertificateUnavailable,
    /// The peer is another device than the one we meant to reach.
    IdentityMismatch { expected: DeviceId, actual: DeviceId },
    /// The device is known by another certificate.
    FingerprintChanged {
        expected: PeerCertificateFingerprint,
        actual: PeerCertificateFingerprint,
    },
}

/// Looks at the certificate of a peer that we connected to. Nothing is pinned yet.
pub fn inspect_outbound_peer_trust(
    store: &QuicTrustStore,
    device_id: DeviceId,
    fingerprint: Option<PeerCertificateFingerprint>,
) -> (pending: Result<PendingPeerTrust, PeerTrustError>)
    ensures
        match pending {
            Ok(trust) => {
                &&& fingerprint == Some(trust.fingerprint)
                &&& trust.expected_device_id == device_id
                &&& trust_of(store@, device_id, trust.fingerprint@, trust.decision)
                &&& !(trust.decision is Rejected)
            },
            Err(PeerTrustError::CertificateUnavailable) => fingerprint is None,
            Err(PeerTrustError::FingerprintChanged { expected, actual }) => fingerprint is Some
                && trust_of(
                store@,
                device_id,
                fingerprint->Some_0@,
                QuicTrustDecision::Rejected { expected, actual },
            ),
            Err(_) => false,
        },
{
    let fingerprint = match fingerprint {
        Some(fingerprint) => fingerprint,
        None => {
            return Err(PeerTrustError::CertificateUnavailable);
        },
    };
    match store.check(device_id, &fingerprint) {
        QuicTrustDecision::Rejected { expected, actual } => Err(
            PeerTrustError::FingerprintChanged { expected, actual },
        ),
        decision => Ok(PendingPeerTrust { expected_device_id: device_id, fingerprint, decision }),
    }
}

/// What offering to pin a device comes to, as the answer to its introduction.
pub open spec fn offered(
    pins: Map<u128, Seq<char>>,
    device_id: DeviceId,
    fingerprint: PeerCertificateFingerprint,
    confirmed: Result<PeerCertificateFingerprint, PeerTrustError>,
) -> bool {
    if pins.contains_key(device_id.0) && pins[device_id.0] != fingerprint@ {
        confirmed matches Err(PeerTrustError::FingerprintChanged { expected, actual })
            && expected@ == pins[device_id.0] && actual@ == fingerprint@
    } else {
        confirmed == Ok::<_, PeerTrustError>(fingerprint)
    }
}

fn offer(
    store: &mut QuicTrustStore,
    device_id: DeviceId,
    fingerprint: PeerCertificateFingerprint,
) -> (confirmed: Result<PeerCertificateFingerprint, PeerTrustError>)
    ensures
        final(store)@ == pins_after(old(store)@, device_id, fingerprint@),
        offered(old(store)@, device_id, fingerprint, confirmed),
{
    let pin = fingerprint.clone();
    match store.trust_first_seen(device_id, pin) {
        QuicTrustDecision::Rejected { expected, actual } => Err(
            PeerTrustError::FingerprintChanged { expected, actual },
        ),
        _ => Ok(fingerprint),
    }
}

/// Confirms the identity that a peer we connected to has given. A peer that was never
/// seen is pinned now; `store` holds what is saved at this moment, which may have changed
/// since the certificate was looked at.
pub fn confirm_peer_identity(
    pending: Option<PendingPeerTrust>,
    actual_device_id: DeviceId,
    store: &mut QuicTrustStore,
) -> (confirmed: Result<PeerCertificateFingerprint, PeerTrustError>)
    ensures
        match pending {
            None => confirmed == Err::<PeerCertificateFingerprint, _>(
                PeerTrustError::NoPendingIdentity,
            ) && final(store)@ == old(store)@,
            Some(trust) => if trust.expected_device_id != actual_device_id {
                confirmed == Err::<PeerCertificateFingerprint, _>(
                    PeerTrustError::IdentityMismatch {
                        expected: trust.expected_device_id,
                        actual: actual_device_id,
                    },
                ) && final(store)@ == old(store)@
            } else {
                match trust.decision {
                    QuicTrustDecision::FirstSeen => offered(
                        old(store)@,
                        actual_device_id,
                        trust.fingerprint,
                        confirmed,
                    ) && final(store)@ == pins_after(
                        old(store)@,
                        actual_device_id,
                        trust.fingerprint@,
                    ),
                    QuicTrustDecision::Trusted => confirmed == Ok::<_, PeerTrustError>(
                        trust.fingerprint,
                    ) && final(store)@ == old(store)@,
                    QuicTrustDecision::Rejected { expected, actual } => confirmed == Err::<
                        PeerCertificateFingerprint,
                        _,
                    >(PeerTrustError::FingerprintChanged { expected, actual }) && final(store)@
                        == old(store)@,
                }
            },
        },
{
    let trust = match pending {
        Some(trust) => trust,
        None => {
            return Err(PeerTrustError::NoPendingIdentity);
        },
    };
    if actual_device_id != trust.expected_device_id {
        return Err(
            PeerTrustError::IdentityMismatch {
                expected: trust.expected_device_id,
                actual: actual_device_id,
            },
        );
    }
    match trust.decision {
        QuicTrustDecision::FirstSeen => offer(store, actual_device_id, trust.fingerprint),
        QuicTrustDecision::Trusted => Ok(trust.fingerprint),
        QuicTrustDecision::Rejected { expected, actual } => Err(
            PeerTrustError::FingerprintChanged { expected, actual },
        ),
    }
}

/// Confirms the identity that a peer has given that connected to us.
pub fn confirm_inbound_peer_identity(
    fingerprint: Option<PeerCertificateFingerprint>,
    actual_device_id: DeviceId,
    store: &mut QuicTrustStore,
) -> (confirmed: Result<PeerCertificateFingerprint, PeerTrustError>)
    ensures
        match fingerprint {
            None => confirmed == Err::<PeerCertificateFingerprint, _>(
                PeerTrustError::CertificateUnavailable,
            ) && final(store)@ == old(store)@,
            Some(presented) => offered(old(store)@, actual_device_id, presented, confirmed)
                && final(store)@ == pins_after(old(store)@, actual_device_id, presented@),
        },
{
    match fingerprint {
        Some(fingerprint) => offer(store, actual_device_id, fingerprint),
        None => Err(PeerTrustError::CertificateUnavailable),
    }
}

/// A device is confirmed exactly if it is pinned to the certificate that it presents, and
/// one that is turned down changes no pin.
pub proof fn confirmed_devices_are_pinned(
    pins: Map<u128, Seq<char>>,
    fingerprint: PeerCertificateFingerprint,
    device_id: DeviceId,
    confirmed: Result<PeerCertificateFingerprint, PeerTrustError>,
)
    requires
        offered(pins, device_id, fingerprint, confirmed),
    ensures
        confirmed is Ok <==> pins_after(pins, device_id, fingerprint@)[device_id.0]
            == fingerprint@,
        confirmed is Err ==> pins_after(pins, device_id, fingerprint@) == pins,
{
}

/// Whether a directory is one of the scratch directories that may be removed with
/// everything in it: it lies right under the scratch root and is named by an identifier.
pub fn is_safe_isolated_state_dir(
    parent: Option<&str>,
    scratch_root: &str,
    name: Option<&str>,
) -> (safe: bool)
    ensures
        safe == (parent is Some && name is Some && parent->Some_0@ == scratch_root@ && exists|
            v: u128,
        | name->Some_0@ == #[trigger] uuid_text(v)),
{
    match (parent, name) {
        (Some(parent), Some(name)) => {
            parent.to_owned() == scratch_root.to_owned() && is_canonical_uuid(name)
        },
        _ => false,
    }
}

/// A connection in use.
pub struct PooledConnection<C> {
    /// The generation that the connection was put in under.
    pub generation: u64,
    pub control_connection_id: Option<ControlConnectionId>,
    pub connection: C,
}

/// Which connection a message went out on.
#[derive(Debug, Clone, Copy, PartialEq, Eq)]
pub struct PooledSendIdentity {
    pub lifecycle_generation: u64,
    pub control_connection_id: Option<ControlConnectionId>,
}

/// The connections in use, one per device.
pub struct ConnectionPool<C> {
    pub connections: DeviceTable<PooledConnection<C>>,
}

impl<C> View for ConnectionPool<C> {
    type V = Map<u128, PooledConnection<C>>;

    /// The connections, by the bits of the device's identifier.
    open spec fn view(&self) -> Map<u128, PooledConnection<C>> {
        self.connections@
    }
}

/// The identity of a device's connection.
pub open spec fn send_identity<C>(entry: PooledConnection<C>) -> PooledSendIdentity {
    PooledSendIdentity {
        lifecycle_generation: entry.generation,
        control_connection_id: entry.control_connection_id,
    }
}

/// The pool after a device's connection was taken out, if it is still of `generation`.
pub open spec fn without_pooled_generation<C>(
    pool: Map<u128, PooledConnection<C>>,
    device_id: DeviceId,
    generation: u64,
) -> Map<u128, PooledConnection<C>> {
    if pool.contains_key(device_id.0) && pool[device_id.0].generation == generation {
        pool.remove(device_id.0)
    } else {
        pool
    }
}

impl<C> ConnectionPool<C> {
    pub fn new() -> (pool: Self)
        ensures
            pool@ == Map::<u128, PooledConnection<C>>::empty(),
    {
        ConnectionPool { connections: DeviceTable::new() }
    }

    /// Puts a connection in that has no generation of its own.
    pub fn insert(
        &mut self,
        device_id: DeviceId,
        control_connection_id: Option<ControlConnectionId>,
        connection: C,
    ) -> (replaced: Option<PooledConnection<C>>)
        ensures
            final(self)@ == old(self)@.insert(
                device_id.0,
                PooledConnection { generation: 0, control_connection_id, connection },
            ),
            match replaced {
                Some(previous) => old(self)@.contains_key(device_id.0) && previous
                    == old(self)@[device_id.0],
                None => !old(self)@.contains_key(device_id.0),
            },
    {
        self.insert_with_generation(device_id, 0, control_connection_id, connection)
    }

    /// Puts a connection in, and hands back the one that it replaces.
    pub fn insert_with_generation(
        &mut self,
        device_id: DeviceId,
        generation: u64,
        control_connection_id: Option<ControlConnectionId>,
        connection: C,
    ) -> (replaced: Option<PooledConnection<C>>)
        ensures
            final(self)@ == old(self)@.insert(
                device_id.0,
                PooledConnection { generation, control_connection_id, connection },
            ),
            match replaced {
                Some(previous) => old(self)@.contains_key(device_id.0) && previous
                    == old(self)@[device_id.0],
                None => !old(self)@.contains_key(device_id.0),
            },
    {
        self.connections.insert(
            device_id,
            PooledConnection { generation, control_connection_id, connection },
        )
    }

    /// The connection of a device, and its identity.
    pub fn connection_for(&self, device_id: DeviceId) -> (found: Option<(&C, PooledSendIdentity)>)
        ensures
            match found {
                Some((connection, identity)) => self@.contains_key(device_id.0) && *connection
                    == self@[device_id.0].connection && identity == send_identity(
                    self@[device_id.0],
                ),
                None => !self@.contains_key(device_id.0),
            },
    {
        match self.connections.get(device_id) {
            Some(entry) => Some(
                (
                    &entry.connection,
                    PooledSendIdentity {
                        lifecycle_generation: entry.generation,
                        control_connection_id: entry.control_connection_id,
                    },
                ),
            ),
            None => None,
        }
    }

    /// Takes the connection of a device out.
    pub fn remove(&mut self, device_id: DeviceId) -> (removed: Option<C>)
        ensures
            final(self)@ == old(self)@.remove(device_id.0),
            match removed {
                Some(connection) => old(self)@.contains_key(device_id.0) && connection
                    == old(self)@[device_id.0].connection,
                None => !old(self)@.contains_key(device_id.0),
            },
    {
        match self.connections.remove(device_id) {
            Some(entry) => Some(entry.connection),
            None => None,
        }
    }

    /// Takes the connection of a device out, if it is still of `generation`.
    pub fn remove_generation(&mut self, device_id: DeviceId, generation: u64) -> (removed: Option<C>)
        ensures
            final(self)@ == without_pooled_generation(old(self)@, device_id, generation),
            match removed {
                Some(connection) => old(self)@.contains_key(device_id.0)
                    && old(self)@[device_id.0].generation == generation && connection
                    == old(self)@[device_id.0].connection,
                None => !(old(self)@.contains_key(device_id.0)
                    && old(self)@[device_id.0].generation == generation),
            },
    {
        let current = match self.connections.get(device_id) {
            Some(entry) => entry.generation == generation,
            None => false,
        };
        if current {
            self.remove(device_id)
        } else {
            None
        }
    }

    /// The generation that the connection of a device was put in under.
    pub fn generation_for(&self, device_id: DeviceId) -> (generation: Option<u64>)
        ensures
            match generation {
                Some(g) => self@.contains_key(device_id.0) && g == self@[device_id.0].generation,
                None => !self@.contains_key(device_id.0),
            },
    {
        match self.connections.get(device_id) {
            Some(entry) => Some(entry.generation),
            None => None,
        }
    }

    /// How many connections there are.
    pub fn count(&self) -> (count: usize)
        ensures
            count == self@.dom().len(),
    {
        self.connections.len()
    }

    /// The devices with a connection, in the order in which a message is offered to them.
    /// It is the order of their identifiers, as numbers and as text.
    pub fn devices(&self) -> (ids: Vec<DeviceId>)
        ensures
            strictly_ascending(ids@),
            ascending_by_text(ids@),
            ids@.len() == self@.dom().len(),
            forall|id: DeviceId| #[trigger] ids@.contains(id) <==> self@.contains_key(id.0),
    {
        let ids = self.connections.ids();
        proof {
            devices_are_ordered_as_their_texts(ids@);
        }
        ids
    }

    /// Takes out every connection that `closed` names.
    pub fn cleanup(&mut self, closed: &Vec<DeviceId>)
        ensures
            final(self)@ == old(self)@.remove_keys(bits_of(closed@)),
    {
        let mut i: usize = 0;
        assert(self@ =~= old(self)@.remove_keys(bits_of(closed@.take(0))));
        while i < closed.len()
            invariant
                i <= closed@.len(),
                self@ == old(self)@.remove_keys(bits_of(closed@.take(i as int))),
            decreases closed@.len() - i,
        {
            let ghost before = closed@.take(i as int);
            let ghost after = closed@.take(i + 1);
            self.connections.remove(closed[i]);
            proof {
                assert(after =~= before.push(closed@[i as int]));
                assert(bits_of(after) =~= bits_of(before).insert(closed@[i as int].0)) by {
                    assert forall|id: u128| bits_of(after).contains(id) <==> bits_of(
                        before,
                    ).insert(closed@[i as int].0).contains(id) by {
                        vstd::seq_lib::lemma_seq_contains_after_push(
                            before,
                            closed@[i as int],
                            DeviceId(id),
                        );
                    }
                }
                assert(self@ =~= old(self)@.remove_keys(bits_of(after)));
            }
            i += 1;
        }
        assert(closed@.take(i as int) =~= closed@);
    }
}

/// The bits of some identifiers.
pub open spec fn bits_of(ids: Seq<DeviceId>) -> Set<u128> {
    Set::new(|id: u128| ids.contains(DeviceId(id)))
}

/// A connection that is taken out late does not take the one with it that has replaced
/// it.
pub proof fn late_pool_removal_keeps_the_replacement<C>(
    pool: Map<u128, PooledConnection<C>>,
    device_id: DeviceId,
    replacement: PooledConnection<C>,
    generation: u64,
)
    requires
        replacement.generation != generation,
    ensures
        without_pooled_generation(pool.insert(device_id.0, replacement), device_id, generation)
            == pool.insert(device_id.0, replacement),
{
}

/// Why a message could not be put in line for a device.
#[derive(Debug, Clone, Copy, PartialEq, Eq, Structural)]
pub enum FanoutEnqueueFailureKind {
    QueueFull,
    QueueClosed,
}

/// A device that a message could not be put in line for.
#[derive(Debug, Clone, Copy, PartialEq, Eq, Structural)]
pub struct FanoutEnqueueFailure {
    pub device_id: DeviceId,
    pub kind: FanoutEnqueueFailureKind,
}

/// Which devices a message was put in line for, and which not.
#[derive(Debug, Clone, PartialEq, Eq)]
pub struct FanoutEnqueueReceipt {
    pub enqueued: Vec<DeviceId>,
    pub failures: Vec<FanoutEnqueueFailure>,
}

/// The devices of those offered that took the message, in order.
pub open spec fn enqueued_of(
    outcomes: Seq<(DeviceId, Option<FanoutEnqueueFailureKind>)>,
) -> Seq<DeviceId>
    decreases outcomes.len(),
{
    if outcomes.len() == 0 {
        seq![]
    } else {
        let earlier = enqueued_of(outcomes.drop_last());
        if outcomes.last().1 is None {
            earlier.push(outcomes.last().0)
        } else {
            earlier
        }
    }
}

/// The devices of those offered that did not take the message, in order.
pub open spec fn failures_of(
    outcomes: Seq<(DeviceId, Option<FanoutEnqueueFailureKind>)>,
) -> Seq<FanoutEnqueueFailure>
    decreases outcomes.len(),
{
    if outcomes.len() == 0 {
        seq![]
    } else {
        let earlier = failures_of(outcomes.drop_last());
        match outcomes.last().1 {
            Some(kind) => earlier.push(
                FanoutEnqueueFailure { device_id: outcomes.last().0, kind },
            ),
            None => earlier,
        }
    }
}

/// The receipt for a message that was offered to some devices. One that cannot take it
/// does not keep it from the others.
pub fn try_fanout(outcomes: &Vec<(DeviceId, Option<FanoutEnqueueFailureKind>)>) -> (receipt:
    FanoutEnqueueReceipt)
    ensures
        receipt.enqueued@ == enqueued_of(outcomes@),
        receipt.failures@ == failures_of(outcomes@),
{
    let mut enqueued: Vec<DeviceId> = Vec::new();
    let mut failures: Vec<FanoutEnqueueFailure> = Vec::new();
    let mut i: usize = 0;
    while i < outcomes.len()
        invariant
            i <= outcomes@.len(),
            enqueued@ == enqueued_of(outcomes@.take(i as int)),
            failures@ == failures_of(outcomes@.take(i as int)),
        decreases outcomes@.len() - i,
    {
        let (device_id, failure) = outcomes[i];
        assert(outcomes@.take(i + 1).drop_last() =~= outcomes@.take(i as int));
        match failure {
            Some(kind) => failures.push(FanoutEnqueueFailure { device_id, kind }),
            None => enqueued.push(device_id),
        }
        i += 1;
    }
    assert(outcomes@.take(i as int) =~= outcomes@);
    FanoutEnqueueReceipt { enqueued, failures }
}

/// Every device that a message was offered to is accounted for, once.
pub proof fn fanout_accounts_for_every_device(
    outcomes: Seq<(DeviceId, Option<FanoutEnqueueFailureKind>)>,
)
    ensures
        enqueued_of(outcomes).len() + failures_of(outcomes).len() == outcomes.len(),
        forall|i: int|
            0 <= i < outcomes.len() ==> match (#[trigger] outcomes[i]).1 {
                None => enqueued_of(outcomes).contains(outcomes[i].0),
                Some(kind) => failures_of(outcomes).contains(
                    FanoutEnqueueFailure { device_id: outcomes[i].0, kind },
                ),
            },
    decreases outcomes.len(),
{
    if outcomes.len() > 0 {
        let rest = outcomes.drop_last();
        fanout_accounts_for_every_device(rest);
        broadcast use vstd::seq_lib::group_seq_properties;
        assert forall|i: int| 0 <= i < outcomes.len() implies match (#[trigger] outcomes[i]).1 {
            None => enqueued_of(outcomes).contains(outcomes[i].0),
            Some(kind) => failures_of(outcomes).contains(
                FanoutEnqueueFailure { device_id: outcomes[i].0, kind },
            ),
        } by {
            if i < rest.len() {
                assert(rest[i] == outcomes[i]);
            }
        }
    }
}

/// The devices that a message was offered to.
pub open spec fn offered_to(outcomes: Seq<(DeviceId, Option<FanoutEnqueueFailureKind>)>) -> Seq<
    DeviceId,
> {
    outcomes.map_values(|outcome: (DeviceId, Option<FanoutEnqueueFailureKind>)| outcome.0)
}

/// The devices that a message could not be put in line for.
pub open spec fn failed_devices(failures: Seq<FanoutEnqueueFailure>) -> Seq<DeviceId> {
    failures.map_values(|failure: FanoutEnqueueFailure| failure.device_id)
}

proof fn lemma_fanout_ascends(outcomes: Seq<(DeviceId, Option<FanoutEnqueueFailureKind>)>)
    requires
        strictly_ascending(offered_to(outcomes)),
    ensures
        strictly_ascending(enqueued_of(outcomes)),
        strictly_ascending(failed_devices(failures_of(outcomes))),
        outcomes.len() > 0 ==> forall|i: int|
            0 <= i < enqueued_of(outcomes).len() ==> (#[trigger] enqueued_of(outcomes)[i]).0
                <= outcomes.last().0.0,
        outcomes.len() > 0 ==> forall|i: int|
            0 <= i < failures_of(outcomes).len() ==> (
            #[trigger] failures_of(outcomes)[i]).device_id.0 <= outcomes.last().0.0,
    decreases outcomes.len(),
{
    if outcomes.len() > 0 {
        let rest = outcomes.drop_last();
        let ids = offered_to(outcomes);
        assert(offered_to(rest) =~= ids.drop_last());
        lemma_fanout_ascends(rest);
        if rest.len() > 0 {
            assert(ids[rest.len() - 1] == rest.last().0);
            assert(ids[rest.len() as int] == outcomes.last().0);
        }
        let failed = failed_devices(failures_of(outcomes));
        let earlier = failed_devices(failures_of(rest));
        if outcomes.last().1 is None {
            assert(failed =~= earlier);
        } else {
            assert(failed =~= earlier.push(outcomes.last().0));
        }
    }
}

/// A message that is offered to devices in ascending order is accounted for in the order of
/// their identifiers' texts, among those that took it and among those that did not.
pub proof fn fanout_keeps_the_order_of_devices(
    outcomes: Seq<(DeviceId, Option<FanoutEnqueueFailureKind>)>,
)
    requires
        strictly_ascending(offered_to(outcomes)),
    ensures
        ascending_by_text(enqueued_of(outcomes)),
        ascending_by_text(failed_devices(failures_of(outcomes))),
{
    lemma_fanout_ascends(outcomes);
    devices_are_ordered_as_their_texts(enqueued_of(outcomes));
    devices_are_ordered_as_their_texts(failed_devices(failures_of(outcomes)));
}

/// Pairs as `first: second`, with `; ` between them.
pub open spec fn listed(pairs: Seq<TextPair>) -> Seq<char>
    decreases pairs.len(),
{
    if pairs.len() == 0 {
        seq![]
    } else {
        let entry = pairs.last().0 + ": "@ + pairs.last().1;
        if pairs.len() == 1 {
            entry
        } else {
            listed(pairs.drop_last()) + "; "@ + entry
        }
    }
}

/// Whether a text reports failures: each of them once, in order.
pub open spec fn reports_failures(text: Seq<char>, failures: Seq<TextPair>) -> bool {
    exists|sorted: Seq<TextPair>|
        {
            &&& #[trigger] pairs_sorted(sorted)
            &&& sorted.to_multiset() == failures.to_multiset()
            &&& text == "broadcast failed: "@ + listed(sorted)
        }
}

/// The report of a broadcast, from the peers that it did not reach and why; `None` where
/// it has reached everybody.
pub fn broadcast_failure(failures: Vec<(String, String)>) -> (report: Option<String>)
    ensures
        match report {
            Some(text) => failures@.len() > 0 && reports_failures(
                text@,
                pairs_view(failures@),
            ),
            None => failures@.len() == 0,
        },
{
    if failures.len() == 0 {
        return None;
    }
    let sorted = sort_pairs(failures);
    let ghost pairs = pairs_view(sorted@);
    let mut text = "broadcast failed: ".to_owned();
    let mut i: usize = 0;
    assert(text@ =~= "broadcast failed: "@ + listed(pairs.take(0)));
    while i < sorted.len()
        invariant
            i <= sorted@.len(),
            pairs == pairs_view(sorted@),
            text@ == "broadcast failed: "@ + listed(pairs.take(i as int)),
        decreases sorted@.len() - i,
    {
        let pair = &sorted[i];
        let ghost before = text@;
        if i > 0 {
            text.append("; ");
        }
        text.append(pair.0.as_str());
        text.append(": ");
        text.append(pair.1.as_str());
        proof {
            assert(pairs.take(i + 1).drop_last() =~= pairs.take(i as int));
            assert(pairs.take(i + 1).last() == (pair.0@, pair.1@));
            assert(text@ =~= "broadcast failed: "@ + listed(pairs.take(i + 1)));
        }
        i += 1;
    }
    assert(pairs.take(i as int) =~= pairs);
    assert(pairs_sorted(pairs));
    Some(text)
}

/// Realtime input of the old form goes out as one datagram that carries its payload, where the
/// connection takes one of that size. It is lost otherwise; it never goes on the stream.
pub proof fn realtime_input_goes_out_at_once_or_not_at_all(
    message: Message,
    payload: Seq<u8>,
    max_message_size: nat,
    max_datagram: Option<usize>,
    plan: Result<OutboundPlan, OutboundError>,
)
    requires
        outbound_plan(true, message, payload, max_message_size, max_datagram, plan),
        message is MouseMove || message is GamepadState,
    ensures
        payload.len() <= 10 * 1024 * 1024 && (max_datagram matches Some(max) && payload.len() + 5
            <= max) ==> (plan matches Ok(OutboundPlan::Datagram(bytes)) && bytes@.len()
            == payload.len() + 5 && bytes@[4] == message_tag(message) && bytes@.skip(5) == payload),
        payload.len() > 10 * 1024 * 1024 || max_datagram is None || payload.len() + 5
            > max_datagram->Some_0 ==> plan == Ok::<_, OutboundError>(OutboundPlan::Drop),
{
    if payload.len() <= 10 * 1024 * 1024 {
        frames_count_what_follows(message_tag(message), payload);
    }
}

/// Everything else goes on the stream, with its length in front and nothing left out, or is
/// refused for its size, which is named.
pub proof fn other_messages_go_on_the_stream(
    message: Message,
    payload: Seq<u8>,
    max_message_size: nat,
    max_datagram: Option<usize>,
    plan: Result<OutboundPlan, OutboundError>,
)
    requires
        outbound_plan(true, message, payload, max_message_size, max_datagram, plan),
        !(message is MouseMove) && !(message is GamepadState),
        payload.len() + 5 <= usize::MAX,
    ensures
        payload.len() <= 10 * 1024 * 1024 && payload.len() + 5 <= max_message_size ==> (
        plan matches Ok(OutboundPlan::Stream(bytes)) && bytes@.len() == payload.len() + 9
            && number(bytes@.take(4)) == payload.len() + 5 && bytes@[8] == message_tag(message)
            && bytes@.skip(9) == payload),
        payload.len() > 10 * 1024 * 1024 ==> plan == Err::<OutboundPlan, _>(
            OutboundError::MessageTooLarge { len: payload.len() as usize },
        ),
        payload.len() <= 10 * 1024 * 1024 && payload.len() + 5 > max_message_size ==> plan == Err::<
            OutboundPlan,
            _,
        >(OutboundError::ReliableTooLarge { len: (payload.len() + 5) as usize }),
{
    if payload.len() <= 10 * 1024 * 1024 {
        let frame = message_frame(message_tag(message), payload);
        frames_count_what_follows(message_tag(message), payload);
        frames_count_what_follows(0, frame);
        let bytes = length_prefixed(frame);
        assert(bytes[8] == bytes.skip(4)[4]);
        assert(bytes.skip(9) =~= bytes.skip(4).skip(5));
    }
}

/// Before a peer is authenticated only its greeting goes out, the answer to one or a refusal,
/// with its length in front; no other message does, and no greeting of more than 64 KiB.
pub proof fn greetings_go_out_before_authentication(
    message: Message,
    payload: Seq<u8>,
    max_message_size: nat,
    max_datagram: Option<usize>,
    plan: Result<OutboundPlan, OutboundError>,
)
    requires
        outbound_plan(false, message, payload, max_message_size, max_datagram, plan),
    ensures
        !(message is Hello || message is HelloBack || message is HelloRejected) ==> plan == Err::<
            OutboundPlan,
            _,
        >(OutboundError::NotBootstrap),
        message is Hello || message is HelloBack || message is HelloRejected ==> {
            &&& payload.len() > 64 * 1024 ==> plan == Err::<OutboundPlan, _>(
                OutboundError::BootstrapTooLarge,
            )
            &&& payload.len() <= 64 * 1024 && payload.len() + 5
                <= max_message_size ==> (plan matches Ok(OutboundPlan::Stream(bytes)) && bytes@
                == length_prefixed(message_frame(message_tag(message), payload)))
        },
{
    if payload.len() <= 10 * 1024 * 1024 {
        frames_count_what_follows(message_tag(message), payload);
    }
}

/// An offer is confirmed with what was presented unless the device is pinned to something
/// else; then the pin and what was presented are named.
pub proof fn pins_decide_who_is_confirmed(
    pins: Map<u128, Seq<char>>,
    fingerprint: PeerCertificateFingerprint,
    device_id: DeviceId,
    confirmed: Result<PeerCertificateFingerprint, PeerTrustError>,
)
    requires
        offered(pins, device_id, fingerprint, confirmed),
    ensures
        !pins.contains_key(device_id.0) || pins[device_id.0] == fingerprint@ ==> confirmed == Ok::<
            _,
            PeerTrustError,
        >(fingerprint),
        pins.contains_key(device_id.0) && pins[device_id.0] != fingerprint@ ==> (
        confirmed matches Err(PeerTrustError::FingerprintChanged { expected, actual }) && expected@
            == pins[device_id.0] && actual@ == fingerprint@),
{
}

/// The connection of a device is taken out with its own generation, and with it no other
/// device's. What a message went out on is told by the connection's own generation and
/// identifier.
pub proof fn pooled_connections_leave_with_their_generation<C>(
    pool: Map<u128, PooledConnection<C>>,
    device_id: DeviceId,
    other: u128,
)
    requires
        pool.contains_key(device_id.0),
    ensures
        ({
            let generation = pool[device_id.0].generation;
            let after = without_pooled_generation(pool, device_id, generation);
            &&& !after.contains_key(device_id.0)
            &&& other != device_id.0 ==> after.contains_key(other) == pool.contains_key(other)
                && after[other] == pool[other]
            &&& send_identity(pool[device_id.0]).lifecycle_generation == generation
            &&& send_identity(pool[device_id.0]).control_connection_id
                == pool[device_id.0].control_connection_id
        }),
{
}

/// What is taken out of the pool is what was named, and nothing else.
pub proof fn named_connections_are_taken_out<C>(
    pool: Map<u128, PooledConnection<C>>,
    closed: Seq<DeviceId>,
    device_id: DeviceId,
)
    ensures
        ({
            let after = pool.remove_keys(bits_of(closed));
            &&& closed.contains(device_id) ==> !after.contains_key(device_id.0)
            &&& !closed.contains(device_id) && pool.contains_key(device_id.0)
                ==> after.contains_key(device_id.0) && after[device_id.0] == pool[device_id.0]
        }),
{
    assert(DeviceId(device_id.0) == device_id);
}

/// A message that was offered to one more device is accounted for by that device's answer,
/// behind the answers before it; what was said of the others stays as it is.
pub proof fn every_answer_is_recorded_behind_the_others(
    outcomes: Seq<(DeviceId, Option<FanoutEnqueueFailureKind>)>,
    device_id: DeviceId,
    kind: FanoutEnqueueFailureKind,
)
    ensures
        enqueued_of(outcomes.push((device_id, None))) == enqueued_of(outcomes).push(device_id),
        failures_of(outcomes.push((device_id, None))) == failures_of(outcomes),
        enqueued_of(outcomes.push((device_id, Some(kind)))) == enqueued_of(outcomes),
        failures_of(outcomes.push((device_id, Some(kind)))) == failures_of(outcomes).push(
            FanoutEnqueueFailure { device_id, kind },
        ),
{
    assert(outcomes.push((device_id, None)).drop_last() =~= outcomes);
    assert(outcomes.push((device_id, Some(kind))).drop_last() =~= outcomes);
}

/// The report of one failure, and how one more is listed behind others.
pub proof fn failures_are_listed_one_behind_the_other(pairs: Seq<TextPair>, pair: TextPair)
    ensures
        listed(seq![pair]) == pair.0 + ": "@ + pair.1,
        pairs.len() > 0 ==> listed(pairs.push(pair)) == listed(pairs) + "; "@ + (pair.0 + ": "@
            + pair.1),
{
    assert(pairs.push(pair).drop_last() =~= pairs);
}

/// Trust decisions are shown by labels that tell them apart.
pub proof fn trust_labels_tell_decisions_apart(a: QuicTrustDecision, b: QuicTrustDecision)
    ensures
        a is FirstSeen ==> trust_label(a) == "first_seen"@,
        a is Trusted ==> trust_label(a) == "trusted"@,
        a is Rejected ==> trust_label(a) == "rejected"@,
        trust_label(a) == trust_label(b) ==> (a is FirstSeen <==> b is FirstSeen) && (
        a is Trusted <==> b is Trusted),
{
    reveal_strlit("first_seen");
    reveal_strlit("trusted");
    reveal_strlit("rejected");
    assert("first_seen"@.len() == 10 && "trusted"@.len() == 7 && "rejected"@.len() == 8);
}

/// The report of failures starts with what has failed, and a single failure is all that follows.
pub proof fn a_single_failure_is_reported(text: Seq<char>, pair: TextPair)
    requires
        reports_failures(text, seq![pair]),
    ensures
        text == "broadcast failed: "@ + (pair.0 + ": "@ + pair.1),
{
    broadcast use vstd::seq_lib::group_to_multiset_ensures;

    let sorted = choose|sorted: Seq<TextPair>|
        {
            &&& #[trigger] pairs_sorted(sorted)
            &&& sorted.to_multiset() == seq![pair].to_multiset()
            &&& text == "broadcast failed: "@ + listed(sorted)
        };
    assert(sorted.to_multiset().len() == sorted.len());
    assert(seq![pair].to_multiset().len() == seq![pair].len());
    assert(sorted.len() == 1);
    assert(seq![pair].to_multiset().count(pair) > 0) by {
        assert(seq![pair].contains(pair)) by {
            assert(seq![pair][0] == pair);
        }
    }
    assert(sorted.contains(pair));
    assert(sorted =~= seq![pair]);
    failures_are_listed_one_behind_the_other(seq![], pair);
}

/// Failures are reported in the order of the devices' texts: one that comes before another does
/// not stand behind it.
pub proof fn failures_are_reported_in_order(pairs: Seq<TextPair>, i: int, j: int)
    requires
        pairs_sorted(pairs),
        0 <= i < pairs.len(),
        0 <= j < pairs.len(),
        text_before(pairs[i].0, pairs[j].0),
    ensures
        i < j,
{
    pairs_are_ordered_by_their_first_texts(pairs[i], pairs[j]);
}

} // verus!
