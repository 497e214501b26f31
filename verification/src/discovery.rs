//! Finding other devices on the local network.
//!
//! A device greets everybody on every usable interface now and then, and answers whoever
//! greets it. Whoever was not heard of for long is forgotten.

use vstd::prelude::*;
use vstd::utf8::encode_utf8;

use crate::handshake::{ascii_lower_all, to_ascii_lower, DISCOVERY_APP_ID};
use crate::message::{Message, PeerTransportCapabilities, TransportCapability};
use crate::table::{strictly_ascending, DeviceTable};
use crate::text::{
    comes_before, decimal, lemma_before_asymmetric, lemma_before_transitive, text_before,
    write_decimal,
};
use crate::types::{DeviceId, PROTOCOL_VERSION};

verus! {

/// Settings of the discovery.
#[derive(Debug, Clone, Copy, PartialEq, Eq, Structural)]
pub struct DiscoveryConfig {
    /// The port that greetings go to.
    pub port: u16,
    /// How often this device greets, in milliseconds.
    pub broadcast_interval_ms: u64,
    /// How long a device is remembered, in milliseconds.
    pub device_timeout_ms: u64,
    pub mdns_enabled: bool,
}

impl Default for DiscoveryConfig {
    fn default() -> (config: Self)
        ensures
            config.port == 27432,
            config.broadcast_interval_ms == 5_000,
            config.device_timeout_ms == 30_000,
            config.mdns_enabled,
    {
        DiscoveryConfig {
            port: 27432,
            broadcast_interval_ms: 5_000,
            device_timeout_ms: 30_000,
            mdns_enabled: true,
        }
    }
}

/// Whether a device speaks the same protocol.
#[derive(Debug, Clone, Copy, PartialEq, Eq, Structural)]
pub enum PeerProtocolCompatibility {
    Compatible,
    Incompatible { local: u32, remote: u32 },
}

/// Whether a device that speaks version `remote` speaks the same protocol.
pub open spec fn compatibility(remote: u32) -> PeerProtocolCompatibility {
    if remote == PROTOCOL_VERSION {
        PeerProtocolCompatibility::Compatible
    } else {
        PeerProtocolCompatibility::Incompatible { local: PROTOCOL_VERSION, remote }
    }
}

fn compatibility_with(remote: u32) -> (found: PeerProtocolCompatibility)
    ensures
        found == compatibility(remote),
{
    if remote == PROTOCOL_VERSION {
        PeerProtocolCompatibility::Compatible
    } else {
        PeerProtocolCompatibility::Incompatible { local: PROTOCOL_VERSION, remote }
    }
}

/// A device that was heard of. The time is in nanoseconds of a clock that never goes
/// back.
#[derive(Debug)]
pub struct DiscoveredDevice {
    pub id: DeviceId,
    pub name: String,
    pub hostname: String,
    pub addresses: Vec<String>,
    pub protocol_compatibility: PeerProtocolCompatibility,
    pub last_seen_ns: u64,
}

/// What is known of a device that was heard of.
pub struct DeviceView {
    pub id: DeviceId,
    pub name: Seq<char>,
    pub hostname: Seq<char>,
    pub addresses: Seq<Seq<char>>,
    pub protocol_compatibility: PeerProtocolCompatibility,
    pub last_seen_ns: u64,
}

impl View for DiscoveredDevice {
    type V = DeviceView;

    open spec fn view(&self) -> DeviceView {
        DeviceView {
            id: self.id,
            name: self.name@,
            hostname: self.hostname@,
            addresses: self.addresses@.map_values(|address: String| address@),
            protocol_compatibility: self.protocol_compatibility,
            last_seen_ns: self.last_seen_ns,
        }
    }
}

impl DeviceView {
    /// Whether a device was not heard of for longer than `timeout_ns`.
    pub open spec fn stale(self, now_ns: u64, timeout_ns: u64) -> bool {
        now_ns - self.last_seen_ns > timeout_ns
    }
}

/// The device that a greeting, or the answer to one, comes from.
pub open spec fn greeter(message: Message) -> Option<DeviceId> {
    match message {
        Message::Hello { device_id, .. } => Some(device_id),
        Message::HelloBack { device_id, .. } => Some(device_id),
        _ => None,
    }
}

/// What a greeting, or the answer to one, says of its sender.
pub open spec fn introduced(message: Message, address: Seq<char>, now_ns: u64) -> Option<
    DeviceView,
> {
    match message {
        Message::Hello { device_id, device_name, hostname, protocol_version, .. } => Some(
            DeviceView {
                id: device_id,
                name: device_name@,
                hostname: hostname@,
                addresses: seq![address],
                protocol_compatibility: compatibility(protocol_version),
                last_seen_ns: now_ns,
            },
        ),
        Message::HelloBack { device_id, device_name, hostname, protocol_version, .. } => Some(
            DeviceView {
                id: device_id,
                name: device_name@,
                hostname: hostname@,
                addresses: seq![address],
                protocol_compatibility: compatibility(protocol_version),
                last_seen_ns: now_ns,
            },
        ),
        _ => None,
    }
}

impl DiscoveredDevice {
    /// The device that a message from `address` introduces, if it is a greeting or the
    /// answer to one.
    pub fn from_message(address: String, message: &Message, now_ns: u64) -> (device: Option<Self>)
        ensures
            match device {
                Some(found) => introduced(*message, address@, now_ns) == Some(found@),
                None => introduced(*message, address@, now_ns) is None,
            },
    {
        match message {
            Message::Hello { device_id, device_name, hostname, protocol_version, .. }
            | Message::HelloBack { device_id, device_name, hostname, protocol_version, .. } => {
                let ghost text = address@;
                let mut addresses: Vec<String> = Vec::new();
                addresses.push(address);
                assert(addresses@.map_values(|a: String| a@) =~= seq![text]);
                Some(
                    DiscoveredDevice {
                        id: *device_id,
                        name: device_name.clone(),
                        hostname: hostname.clone(),
                        addresses,
                        protocol_compatibility: compatibility_with(*protocol_version),
                        last_seen_ns: now_ns,
                    },
                )
            },
            _ => None,
        }
    }

    /// Whether the device was not heard of for longer than `timeout_ns`.
    pub fn is_stale(&self, now_ns: u64, timeout_ns: u64) -> (stale: bool)
        ensures
            stale == self@.stale(now_ns, timeout_ns),
    {
        now_ns > self.last_seen_ns && now_ns - self.last_seen_ns > timeout_ns
    }

    /// A copy of what is known of the device.
    pub fn copy(&self) -> (copy: Self)
        ensures
            copy@ == self@,
    {
        let mut addresses: Vec<String> = Vec::new();
        let mut i: usize = 0;
        while i < self.addresses.len()
            invariant
                i <= self.addresses@.len(),
                addresses@ == self.addresses@.take(i as int),
            decreases self.addresses@.len() - i,
        {
            addresses.push(self.addresses[i].clone());
            assert(self.addresses@.take(i + 1) =~= self.addresses@.take(i as int).push(
                self.addresses@[i as int],
            ));
            i += 1;
        }
        assert(self.addresses@.take(i as int) =~= self.addresses@);
        DiscoveredDevice {
            id: self.id,
            name: self.name.clone(),
            hostname: self.hostname.clone(),
            addresses,
            protocol_compatibility: self.protocol_compatibility,
            last_seen_ns: self.last_seen_ns,
        }
    }
}

/// What the discovery has to tell.
#[derive(Debug)]
pub enum DiscoveryEvent {
    DeviceFound(DiscoveredDevice),
    DeviceUpdated(DiscoveredDevice),
    DeviceLost(DeviceId),
    Error(String),
}

/// What a packet comes to.
#[derive(Debug)]
pub struct PacketOutcome {
    /// Whether the sender is answered.
    pub reply: bool,
    pub event: Option<DiscoveryEvent>,
}

/// The devices that were heard of, as a value.
#[verifier::ext_equal]
pub struct DiscoveryView {
    pub local_device_id: DeviceId,
    pub config: DiscoveryConfig,
    pub devices: Map<u128, DeviceView>,
    pub running: bool,
}

impl DiscoveryView {
    /// The device that a message introduces, unless it comes from this very device.
    pub open spec fn hears(self, message: Message, address: Seq<char>, now_ns: u64) -> Option<
        DeviceView,
    > {
        if greeter(message) == Some(self.local_device_id) {
            None
        } else {
            introduced(message, address, now_ns)
        }
    }

    /// The devices after a message.
    pub open spec fn after_packet(
        self,
        message: Message,
        address: Seq<char>,
        now_ns: u64,
    ) -> DiscoveryView {
        match self.hears(message, address, now_ns) {
            Some(device) => DiscoveryView {
                devices: self.devices.insert(device.id.0, device),
                ..self
            },
            None => self,
        }
    }

    /// Whether a device is forgotten now.
    pub open spec fn forgets(self, id: u128, now_ns: u64) -> bool {
        self.devices.contains_key(id) && self.devices[id].stale(
            now_ns,
            timeout_ns(self.config.device_timeout_ms),
        )
    }

    /// The devices that are remembered now.
    pub open spec fn after_cleanup(self, now_ns: u64) -> DiscoveryView {
        DiscoveryView {
            devices: self.devices.remove_keys(Set::new(|id: u128| self.forgets(id, now_ns))),
            ..self
        }
    }
}

/// A timeout in nanoseconds; one beyond all time is as long as there is.
pub open spec fn timeout_ns(timeout_ms: u64) -> u64 {
    if timeout_ms * 1_000_000 <= u64::MAX {
        (timeout_ms * 1_000_000) as u64
    } else {
        u64::MAX
    }
}

fn to_timeout_ns(timeout_ms: u64) -> (timeout: u64)
    ensures
        timeout == timeout_ns(timeout_ms),
{
    if timeout_ms <= u64::MAX / 1_000_000 {
        timeout_ms * 1_000_000
    } else {
        u64::MAX
    }
}

/// The devices that were heard of.
pub struct ServiceDiscovery {
    pub config: DiscoveryConfig,
    pub local_device_id: DeviceId,
    pub local_device_name: String,
    pub local_hostname: String,
    pub devices: DeviceTable<DiscoveredDevice>,
    pub running: bool,
}

impl View for ServiceDiscovery {
    type V = DiscoveryView;

    open spec fn view(&self) -> DiscoveryView {
        DiscoveryView {
            local_device_id: self.local_device_id,
            config: self.config,
            devices: self.devices@.map_values(|device: DiscoveredDevice| device@),
            running: self.running,
        }
    }
}

/// Whether `message` says who this device is, in a greeting or in the answer to one.
pub open spec fn introduces(
    message: Message,
    id: DeviceId,
    name: Seq<char>,
    host: Seq<char>,
) -> bool {
    match message {
        Message::Hello {
            app_id,
            device_id,
            device_name,
            hostname,
            protocol_version,
            transport_capabilities,
        } => app_id@ == DISCOVERY_APP_ID@ && device_id == id && device_name@ == name && hostname@
            == host && protocol_version == PROTOCOL_VERSION && forall|c: TransportCapability|
            transport_capabilities.offers(c),
        Message::HelloBack {
            app_id,
            device_id,
            device_name,
            hostname,
            protocol_version,
            transport_capabilities,
        } => app_id@ == DISCOVERY_APP_ID@ && device_id == id && device_name@ == name && hostname@
            == host && protocol_version == PROTOCOL_VERSION && forall|c: TransportCapability|
            transport_capabilities.offers(c),
        _ => false,
    }
}

impl ServiceDiscovery {
    /// A discovery that has heard of nobody.
    pub fn new(
        local_device_id: DeviceId,
        local_device_name: String,
        local_hostname: String,
    ) -> (discovery: Self)
        ensures
            discovery.local_device_name@ == local_device_name@,
            discovery.local_hostname@ == local_hostname@,
            discovery@.local_device_id == local_device_id,
            discovery@.config.port == 27432,
            discovery@.config.broadcast_interval_ms == 5_000,
            discovery@.config.device_timeout_ms == 30_000,
            discovery@.config.mdns_enabled,
            discovery@.devices == Map::<u128, DeviceView>::empty(),
            !discovery@.running,
    {
        let discovery = ServiceDiscovery {
            config: DiscoveryConfig::default(),
            local_device_id,
            local_device_name,
            local_hostname,
            devices: DeviceTable::new(),
            running: false,
        };
        assert(discovery@.devices =~= Map::<u128, DeviceView>::empty());
        discovery
    }

    /// The same discovery with other settings.
    pub fn with_config(self, config: DiscoveryConfig) -> (discovery: Self)
        ensures
            discovery == (ServiceDiscovery { config, ..self }),
    {
        ServiceDiscovery {
            config,
            local_device_id: self.local_device_id,
            local_device_name: self.local_device_name,
            local_hostname: self.local_hostname,
            devices: self.devices,
            running: self.running,
        }
    }

    /// Starts the discovery; one that runs is not started again.
    pub fn begin(&mut self) -> (started: bool)
        ensures
            started == !old(self)@.running,
            final(self)@ == (DiscoveryView { running: true, ..old(self)@ }),
            final(self).local_device_name == old(self).local_device_name,
            final(self).local_hostname == old(self).local_hostname,
    {
        if self.running {
            return false;
        }
        self.running = true;
        true
    }

    /// Stops the discovery.
    pub fn stop(&mut self)
        ensures
            final(self)@ == (DiscoveryView { running: false, ..old(self)@ }),
            final(self).local_device_name == old(self).local_device_name,
            final(self).local_hostname == old(self).local_hostname,
    {
        self.running = false;
    }

    /// The greeting of this device.
    pub fn hello(&self) -> (message: Message)
        ensures
            message is Hello,
            introduces(
                message,
                self@.local_device_id,
                self.local_device_name@,
                self.local_hostname@,
            ),
    {
        Message::Hello {
            app_id: DISCOVERY_APP_ID.to_owned(),
            device_id: self.local_device_id,
            device_name: self.local_device_name.clone(),
            hostname: self.local_hostname.clone(),
            protocol_version: PROTOCOL_VERSION,
            transport_capabilities: PeerTransportCapabilities::required_v3(),
        }
    }

    /// This device's answer to a greeting.
    pub fn hello_back(&self) -> (message: Message)
        ensures
            message is HelloBack,
            introduces(
                message,
                self@.local_device_id,
                self.local_device_name@,
                self.local_hostname@,
            ),
    {
        Message::HelloBack {
            app_id: DISCOVERY_APP_ID.to_owned(),
            device_id: self.local_device_id,
            device_name: self.local_device_name.clone(),
            hostname: self.local_hostname.clone(),
            protocol_version: PROTOCOL_VERSION,
            transport_capabilities: PeerTransportCapabilities::required_v3(),
        }
    }

    /// All devices that are remembered, in ascending order.
    pub fn devices(&self) -> (ids: Vec<DeviceId>)
        ensures
            strictly_ascending(ids@),
            forall|id: DeviceId| #[trigger] ids@.contains(id) <==> self@.devices.contains_key(id.0),
    {
        let ids = self.devices.ids();
        assert forall|id: DeviceId| #[trigger] ids@.contains(id) <==> self@.devices.contains_key(
            id.0,
        ) by {
            assert(self.devices@.contains_key(id.0) <==> self@.devices.contains_key(id.0));
        }
        ids
    }

    /// What is known of a device.
    pub fn get_device(&self, id: &DeviceId) -> (device: Option<&DiscoveredDevice>)
        ensures
            match device {
                Some(known) => self@.devices.contains_key(id.0) && known@ == self@.devices[id.0],
                None => !self@.devices.contains_key(id.0),
            },
    {
        self.devices.get(*id)
    }

    /// Looks at a message that came from `address`. Greetings are answered; whoever greets
    /// or answers is remembered and told of, except this device itself.
    pub fn handle_packet(&mut self, message: &Message, address: String, now_ns: u64) -> (outcome:
        PacketOutcome)
        ensures
            final(self)@ == old(self)@.after_packet(*message, address@, now_ns),
            final(self).local_device_name == old(self).local_device_name,
            final(self).local_hostname == old(self).local_hostname,
            match old(self)@.hears(*message, address@, now_ns) {
                Some(device) => outcome.reply == (message is Hello) && match outcome.event {
                    Some(DiscoveryEvent::DeviceFound(found)) => found@ == device && !old(self)@.devices.contains_key(device.id.0),
                    Some(DiscoveryEvent::DeviceUpdated(updated)) => updated@ == device && old(self)@.devices.contains_key(device.id.0),
                    _ => false,
                },
                None => !outcome.reply && outcome.event is None,
            },
    {
        let ghost text = address@;
        let sender = match message {
            Message::Hello { device_id, .. } => Some(*device_id),
            Message::HelloBack { device_id, .. } => Some(*device_id),
            _ => None,
        };
        if let Some(id) = sender {
            if id == self.local_device_id {
                return PacketOutcome { reply: false, event: None };
            }
        }
        let device = match DiscoveredDevice::from_message(address, message, now_ns) {
            Some(device) => device,
            None => {
                return PacketOutcome { reply: false, event: None };
            },
        };
        let reply = match message {
            Message::Hello { .. } => true,
            _ => false,
        };
        let id = device.id;
        let is_new = !self.devices.contains(id);
        let copy = device.copy();
        self.devices.insert(id, device);
        proof {
            assert(self@.devices =~= old(self)@.devices.insert(id.0, copy@));
            assert(self@ =~= old(self)@.after_packet(*message, text, now_ns));
        }
        let event = if is_new {
            DiscoveryEvent::DeviceFound(copy)
        } else {
            DiscoveryEvent::DeviceUpdated(copy)
        };
        PacketOutcome { reply, event: Some(event) }
    }

    /// Forgets every device that was not heard of for too long. Their loss is told of, in
    /// ascending order.
    pub fn cleanup_stale_devices(&mut self, now_ns: u64) -> (lost: Vec<DeviceId>)
        ensures
            final(self)@ == old(self)@.after_cleanup(now_ns),
            final(self).local_device_name == old(self).local_device_name,
            final(self).local_hostname == old(self).local_hostname,
            strictly_ascending(lost@),
            forall|id: DeviceId| #[trigger]
                lost@.contains(id) <==> old(self)@.forgets(id.0, now_ns),
    {
        let timeout = to_timeout_ns(self.config.device_timeout_ms);
        let ids = self.devices.ids();
        let mut lost: Vec<DeviceId> = Vec::new();
        let mut i: usize = 0;
        while i < ids.len()
            invariant
                i <= ids@.len(),
                timeout == timeout_ns(old(self)@.config.device_timeout_ms),
                strictly_ascending(ids@),
                strictly_ascending(lost@),
                i < ids@.len() ==> (lost@.len() > 0 ==> lost@.last().0 < ids@[i as int].0),
                self.local_device_name == old(self).local_device_name,
                self.local_hostname == old(self).local_hostname,
                self.local_device_id == old(self).local_device_id,
                self.config == old(self).config,
                self.running == old(self).running,
                forall|id: DeviceId| #[trigger]
                    ids@.contains(id) <==> old(self).devices@.contains_key(id.0),
                forall|id: DeviceId| #[trigger]
                    lost@.contains(id) <==> ids@.take(i as int).contains(id) && old(self).devices@[id.0]@.stale(now_ns, timeout),
                forall|id: u128| #[trigger]
                    self.devices@.contains_key(id) <==> old(self).devices@.contains_key(id)
                        && !lost@.contains(DeviceId(id)),
                forall|id: u128| #[trigger]
                    self.devices@.contains_key(id) ==> self.devices@[id] == old(self).devices@[id],
            decreases ids@.len() - i,
        {
            let id = ids[i];
            let ghost seen = ids@.take(i as int);
            let ghost lost_before = lost@;
            let ghost table_before = self.devices@;
            proof {
                assert(ids@.contains(id));
                assert(!seen.contains(id)) by {
                    if seen.contains(id) {
                        let k = choose|k: int| 0 <= k < seen.len() && seen[k] == id;
                        assert(ids@[k].0 < ids@[i as int].0);
                    }
                }
                assert(!lost_before.contains(id));
                assert(self.devices@.contains_key(id.0));
            }
            let stale = match self.devices.get(id) {
                Some(device) => device.is_stale(now_ns, timeout),
                None => false,
            };
            if stale {
                self.devices.remove(id);
                lost.push(id);
            }
            proof {
                assert(ids@.take(i + 1) =~= seen.push(id));
                assert forall|other: DeviceId| #[trigger] lost@.contains(other) <==> ids@.take(
                    i + 1,
                ).contains(other) && old(self).devices@[other.0]@.stale(now_ns, timeout) by {
                    vstd::seq_lib::lemma_seq_contains_after_push(seen, id, other);
                    vstd::seq_lib::lemma_seq_contains_after_push(lost_before, id, other);
                }
                assert forall|other: u128| #[trigger] self.devices@.contains_key(other) <==> old(self).devices@.contains_key(other) && !lost@.contains(DeviceId(other)) by {
                    vstd::seq_lib::lemma_seq_contains_after_push(
                        lost_before,
                        id,
                        DeviceId(other),
                    );
                    assert(self.devices@.contains_key(other) <==> table_before.contains_key(other)
                        && !(stale && other == id.0));
                }
                assert forall|other: u128| #[trigger] self.devices@.contains_key(other) implies
                    self.devices@[other] == old(self).devices@[other] by {
                    assert(table_before.contains_key(other));
                }
            }
            i += 1;
        }
        proof {
            assert(ids@.take(i as int) =~= ids@);
            assert forall|id: DeviceId| #[trigger] lost@.contains(id) <==> old(self)@.forgets(
                id.0,
                now_ns,
            ) by {
                assert(ids@.contains(id) <==> old(self).devices@.contains_key(id.0));
            }
            assert forall|id: u128| self@.devices.contains_key(id) <==> old(self)@.after_cleanup(
                now_ns,
            ).devices.contains_key(id) by {
                assert(lost@.contains(DeviceId(id)) <==> old(self)@.forgets(
                    DeviceId(id).0,
                    now_ns,
                ));
                assert(self.devices@.contains_key(id) <==> old(self).devices@.contains_key(id)
                    && !lost@.contains(DeviceId(id)));
            }
            assert(self@.devices =~= old(self)@.after_cleanup(now_ns).devices) by {
                assert forall|id: u128| self@.devices.contains_key(id) implies self@.devices[id]
                    == old(self)@.after_cleanup(now_ns).devices[id] by {
                    assert(self.devices@.contains_key(id));
                    assert(old(self)@.after_cleanup(now_ns).devices.contains_key(id));
                }
            }
        }
        lost
    }
}

/// Whoever greets, or answers a greeting, is remembered with the identifier, the name and the
/// host name that the message carries, with exactly the address that it came from and the time
/// at which it came, and as compatible exactly if it speaks this protocol's version. Nobody
/// else is touched.
pub proof fn senders_are_remembered_with_their_address(
    view: DiscoveryView,
    message: Message,
    address: Seq<char>,
    now_ns: u64,
    other: u128,
)
    ensures
        message matches Message::Hello { device_id, device_name, hostname, protocol_version, .. }
            ==> device_id != view.local_device_id ==> {
            let after = view.after_packet(message, address, now_ns);
            &&& after.devices.contains_key(device_id.0)
            &&& after.devices[device_id.0].id == device_id
            &&& after.devices[device_id.0].name == device_name@
            &&& after.devices[device_id.0].hostname == hostname@
            &&& after.devices[device_id.0].addresses.len() == 1
            &&& after.devices[device_id.0].addresses[0] == address
            &&& after.devices[device_id.0].last_seen_ns == now_ns
            &&& after.devices[device_id.0].protocol_compatibility == (if protocol_version
                == PROTOCOL_VERSION {
                PeerProtocolCompatibility::Compatible
            } else {
                PeerProtocolCompatibility::Incompatible {
                    local: PROTOCOL_VERSION,
                    remote: protocol_version,
                }
            })
            &&& other != device_id.0 ==> after.devices.contains_key(other)
                == view.devices.contains_key(other) && (view.devices.contains_key(other)
                ==> after.devices[other] == view.devices[other])
        },
        message matches Message::HelloBack {
            device_id,
            device_name,
            hostname,
            protocol_version,
            ..
        } ==> device_id != view.local_device_id ==> {
            let after = view.after_packet(message, address, now_ns);
            &&& after.devices.contains_key(device_id.0)
            &&& after.devices[device_id.0].id == device_id
            &&& after.devices[device_id.0].name == device_name@
            &&& after.devices[device_id.0].hostname == hostname@
            &&& after.devices[device_id.0].addresses.len() == 1
            &&& after.devices[device_id.0].addresses[0] == address
            &&& after.devices[device_id.0].last_seen_ns == now_ns
            &&& after.devices[device_id.0].protocol_compatibility == (if protocol_version
                == PROTOCOL_VERSION {
                PeerProtocolCompatibility::Compatible
            } else {
                PeerProtocolCompatibility::Incompatible {
                    local: PROTOCOL_VERSION,
                    remote: protocol_version,
                }
            })
            &&& other != device_id.0 ==> after.devices.contains_key(other)
                == view.devices.contains_key(other) && (view.devices.contains_key(other)
                ==> after.devices[other] == view.devices[other])
        },
{
}

/// An answer is remembered just as a greeting with the same fields is.
pub proof fn answers_are_remembered_as_greetings_are(
    view: DiscoveryView,
    greeting: Message,
    answer: Message,
    address: Seq<char>,
    now_ns: u64,
)
    requires
        greeting is Hello,
        answer is HelloBack,
        greeting->Hello_device_id == answer->HelloBack_device_id,
        greeting->Hello_device_name == answer->HelloBack_device_name,
        greeting->Hello_hostname == answer->HelloBack_hostname,
        greeting->Hello_protocol_version == answer->HelloBack_protocol_version,
    ensures
        view.hears(greeting, address, now_ns) == view.hears(answer, address, now_ns),
        view.after_packet(greeting, address, now_ns) == view.after_packet(answer, address, now_ns),
        view.hears(answer, address, now_ns) is Some <==> answer->HelloBack_device_id
            != view.local_device_id,
{
}

/// Nothing but greetings and answers makes a device known.
pub proof fn other_messages_introduce_nobody(
    view: DiscoveryView,
    message: Message,
    address: Seq<char>,
    now_ns: u64,
)
    requires
        !(message is Hello),
        !(message is HelloBack),
    ensures
        view.hears(message, address, now_ns) is None,
        view.after_packet(message, address, now_ns) == view,
{
}

/// A device is forgotten exactly if it was silent for longer than the timeout; what is known of
/// the others stays as it is, and so does everything else.
pub proof fn silent_devices_are_forgotten(view: DiscoveryView, now_ns: u64, id: u128)
    ensures
        ({
            let after = view.after_cleanup(now_ns);
            &&& after.devices.contains_key(id) <==> view.devices.contains_key(id) && now_ns
                - view.devices[id].last_seen_ns <= view.config.device_timeout_ms * 1_000_000
            &&& after.devices.contains_key(id) ==> after.devices[id] == view.devices[id]
            &&& after.local_device_id == view.local_device_id
            &&& after.config == view.config
            &&& after.running == view.running
        }),
{
}

/// Who this device says it is, the others hear: they remember its identifier, name and host
/// name from its greeting and from its answer alike, and take it for compatible.
pub proof fn others_hear_who_this_device_is(
    other: DiscoveryView,
    message: Message,
    id: DeviceId,
    name: Seq<char>,
    host: Seq<char>,
    address: Seq<char>,
    now_ns: u64,
)
    requires
        introduces(message, id, name, host),
        id != other.local_device_id,
    ensures
        ({
            let after = other.after_packet(message, address, now_ns);
            &&& after.devices.contains_key(id.0)
            &&& after.devices[id.0].name == name
            &&& after.devices[id.0].hostname == host
            &&& after.devices[id.0].protocol_compatibility
                == PeerProtocolCompatibility::Compatible
        }),
{
}

/// This device never hears of itself.
pub proof fn own_packets_are_ignored(
    view: DiscoveryView,
    message: Message,
    address: Seq<char>,
    now_ns: u64,
)
    requires
        greeter(message) == Some(view.local_device_id),
    ensures
        view.after_packet(message, address, now_ns) == view,
{
}

/// A device that was just heard of is remembered, and a cleanup does not forget it before
/// its time.
pub proof fn recent_devices_are_remembered(
    view: DiscoveryView,
    message: Message,
    address: Seq<char>,
    seen_ns: u64,
    now_ns: u64,
)
    requires
        view.hears(message, address, seen_ns) is Some,
        now_ns - seen_ns <= timeout_ns(view.config.device_timeout_ms),
    ensures
        ({
            let device = view.hears(message, address, seen_ns)->Some_0;
            let later = view.after_packet(message, address, seen_ns).after_cleanup(now_ns);
            later.devices.contains_key(device.id.0) && later.devices[device.id.0] == device
        }),
{
}

/// An address of the fourth version of the protocol, its first octet on top.
#[derive(Debug, Clone, Copy, PartialEq, Eq, Structural)]
pub struct Ipv4Addr(pub u32);

/// A port at such an address.
#[derive(Debug, Clone, Copy, PartialEq, Eq, Structural)]
pub struct SocketAddrV4 {
    pub ip: Ipv4Addr,
    pub port: u16,
}

proof fn lemma_octets(a: u8, b: u8, c: u8, d: u8)
    ensures
        ({
            let v = a * 0x100_0000 + b * 0x1_0000 + c * 0x100 + d;
            &&& v / 0x100_0000 == a
            &&& v / 0x1_0000 % 256 == b
            &&& v / 0x100 % 256 == c
            &&& v % 256 == d
        }),
{
    let v = a * 0x100_0000 + b * 0x1_0000 + c * 0x100 + d;
    assert(v / 0x100_0000 == a);
    assert(v / 0x1_0000 == a * 256 + b);
    assert((a * 256 + b) % 256 == b);
    assert(v / 0x100 == a * 0x1_0000 + b * 256 + c);
    assert((a * 0x1_0000 + b * 256 + c) % 256 == c);
    assert(v % 256 == d);
}

impl Ipv4Addr {
    /// An octet of the address, counted from the left.
    pub open spec fn octet(self, i: int) -> nat {
        if i == 0 {
            (self.0 / 0x100_0000) as nat
        } else if i == 1 {
            (self.0 / 0x1_0000) as nat % 256
        } else if i == 2 {
            (self.0 / 0x100) as nat % 256
        } else {
            self.0 as nat % 256
        }
    }

    /// The address as text: its octets in decimal, with dots between them.
    pub open spec fn dotted(self) -> Seq<char> {
        decimal(self.octet(0)) + "."@ + decimal(self.octet(1)) + "."@ + decimal(self.octet(2))
            + "."@ + decimal(self.octet(3))
    }

    /// The address of four octets.
    pub fn new(a: u8, b: u8, c: u8, d: u8) -> (ip: Self)
        ensures
            ip.octet(0) == a,
            ip.octet(1) == b,
            ip.octet(2) == c,
            ip.octet(3) == d,
            ip.0 == a * 0x100_0000 + b * 0x1_0000 + c * 0x100 + d,
    {
        proof {
            lemma_octets(a, b, c, d);
        }
        Ipv4Addr(a as u32 * 0x100_0000 + b as u32 * 0x1_0000 + c as u32 * 0x100 + d as u32)
    }

    /// The address as text.
    pub fn to_string(&self) -> (text: String)
        ensures
            text@ == self.dotted(),
    {
        let mut text = write_decimal((self.0 / 0x100_0000) as u64);
        text.append(".");
        text.append(write_decimal((self.0 / 0x1_0000 % 256) as u64).as_str());
        text.append(".");
        text.append(write_decimal((self.0 / 0x100 % 256) as u64).as_str());
        text.append(".");
        text.append(write_decimal((self.0 % 256) as u64).as_str());
        text
    }

    /// Whether this is one device's own address on a network: not one of the loopback
    /// network, not link-local, not unspecified, no multicast, not the broadcast address.
    pub open spec fn is_candidate(self) -> bool {
        &&& self.octet(0) != 127
        &&& !(self.octet(0) == 169 && self.octet(1) == 254)
        &&& self.0 != 0
        &&& !(224 <= self.octet(0) <= 239)
        &&& self.0 != u32::MAX
    }
}

impl SocketAddrV4 {
    pub fn ip(&self) -> (ip: Ipv4Addr)
        ensures
            ip == self.ip,
    {
        self.ip
    }

    pub fn port(&self) -> (port: u16)
        ensures
            port == self.port,
    {
        self.port
    }
}

/// Whether an address is one device's own address on a network.
pub fn is_candidate_ipv4(ip: Ipv4Addr) -> (candidate: bool)
    ensures
        candidate == ip.is_candidate(),
{
    let first: u32 = ip.0 / 0x100_0000;
    let second: u32 = ip.0 / 0x1_0000 % 256;
    let loopback = first == 127;
    let link_local = first == 169 && second == 254;
    let multicast = first >= 224 && first <= 239;
    !loopback && !link_local && ip.0 != 0 && !multicast && ip.0 != u32::MAX
}

/// The address that reaches everybody on a network.
pub fn compute_directed_broadcast(ip: Ipv4Addr, netmask: Ipv4Addr) -> (broadcast: Ipv4Addr)
    ensures
        broadcast.0 == (ip.0 & netmask.0) | !netmask.0,
{
    Ipv4Addr((ip.0 & netmask.0) | !netmask.0)
}

/// The addresses on which this device does not greet are those of the loopback network, the
/// link-local network, the multicast networks, the unspecified address and the one that
/// reaches everybody; it greets on all others.
pub proof fn usable_addresses(ip: Ipv4Addr)
    ensures
        ip.is_candidate() <==> !(0x7f00_0000 <= ip.0 <= 0x7fff_ffff) && !(0xa9fe_0000 <= ip.0
            <= 0xa9fe_ffff) && !(0xe000_0000 <= ip.0 <= 0xefff_ffff) && ip.0 != 0 && ip.0
            != 0xffff_ffff,
{
}

/// The address that reaches everybody on a network lies in that network, and all its host
/// bits are set.
pub proof fn directed_broadcast_stays_in_the_network(ip: u32, netmask: u32)
    ensures
        ((ip & netmask) | !netmask) & netmask == ip & netmask,
        ((ip & netmask) | !netmask) | netmask == 0xffff_ffffu32,
{
    assert(((ip & netmask) | !netmask) & netmask == ip & netmask) by (bit_vector);
    assert(((ip & netmask) | !netmask) | netmask == 0xffff_ffffu32) by (bit_vector);
}

/// The address that reaches everybody, on whatever network.
pub fn broadcast_address(port: u16) -> (address: SocketAddrV4)
    ensures
        address.port == port,
        address.ip.0 == u32::MAX,
{
    SocketAddrV4 { ip: Ipv4Addr(u32::MAX), port }
}

/// What the names of interfaces contain that lead to no local network.
pub open spec fn ignored_marker(i: int) -> Seq<char> {
    if i == 0 {
        "vmware"@
    } else if i == 1 {
        "virtual"@
    } else if i == 2 {
        "vbox"@
    } else if i == 3 {
        "hyper-v"@
    } else if i == 4 {
        "wintun"@
    } else if i == 5 {
        "wireguard"@
    } else if i == 6 {
        "tailscale"@
    } else if i == 7 {
        "zerotier"@
    } else if i == 8 {
        "docker"@
    } else if i == 9 {
        "podman"@
    } else if i == 10 {
        "vnic"@
    } else if i == 11 {
        "loopback"@
    } else if i == 12 {
        "npcap"@
    } else if i == 13 {
        "tap"@
    } else {
        "tun"@
    }
}

fn marker(i: usize) -> (text: &'static str)
    requires
        i < 15,
    ensures
        text@ == ignored_marker(i as int),
{
    match i {
        0 => "vmware",
        1 => "virtual",
        2 => "vbox",
        3 => "hyper-v",
        4 => "wintun",
        5 => "wireguard",
        6 => "tailscale",
        7 => "zerotier",
        8 => "docker",
        9 => "podman",
        10 => "vnic",
        11 => "loopback",
        12 => "npcap",
        13 => "tap",
        _ => "tun",
    }
}

/// Whether bytes contain others in one piece.
pub open spec fn contains_bytes(bytes: Seq<u8>, part: Seq<u8>) -> bool {
    exists|at: int|
        0 <= at <= bytes.len() - part.len() && #[trigger] bytes.subrange(at, at + part.len())
            == part
}

/// Whether the name of an interface says that it leads to no local network: it contains
/// one of the markers, in whatever case.
pub open spec fn ignored_name(name: Seq<char>) -> bool {
    exists|i: int|
        0 <= i < 15 && contains_bytes(
            ascii_lower_all(encode_utf8(name)),
            encode_utf8(#[trigger] ignored_marker(i)),
        )
}

fn contains_lowered(name: &[u8], part: &[u8]) -> (contained: bool)
    ensures
        contained == contains_bytes(ascii_lower_all(name@), part@),
{
    let lowered = Ghost(ascii_lower_all(name@));
    let len: usize = name.len();
    let width: usize = part.len();
    if width > len {
        return false;
    }
    let mut at: usize = 0;
    while at <= len - width
        invariant
            lowered@ == ascii_lower_all(name@),
            len == name@.len(),
            width == part@.len(),
            width <= len,
            at <= len - width + 1,
            forall|k: int|
                0 <= k < at ==> #[trigger] lowered@.subrange(k, k + width) != part@,
        decreases len - width + 1 - at,
    {
        let mut n: usize = 0;
        while n < width && to_ascii_lower(name[at + n]) == part[n]
            invariant
                lowered@ == ascii_lower_all(name@),
                len == name@.len(),
                width == part@.len(),
                width <= len,
                at <= len - width,
                n <= width,
                forall|k: int| 0 <= k < n ==> lowered@[at + k] == #[trigger] part@[k],
            decreases width - n,
        {
            n += 1;
        }
        if n == width {
            assert(lowered@.subrange(at as int, at + width) =~= part@);
            return true;
        }
        assert(lowered@.subrange(at as int, at + width)[n as int] != part@[n as int]);
        at += 1;
    }
    false
}

/// Whether the name of an interface says that it leads to no local network.
pub fn is_ignored_interface_name(name: &str) -> (ignored: bool)
    ensures
        ignored == ignored_name(name@),
{
    let bytes = name.as_bytes();
    let mut i: usize = 0;
    while i < 15
        invariant
            i <= 15,
            bytes@ == encode_utf8(name@),
            forall|k: int|
                0 <= k < i ==> !contains_bytes(
                    ascii_lower_all(encode_utf8(name@)),
                    encode_utf8(#[trigger] ignored_marker(k)),
                ),
        decreases 15 - i,
    {
        if contains_lowered(bytes, marker(i).as_bytes()) {
            return true;
        }
        i += 1;
    }
    false
}

/// A network interface.
#[derive(Debug)]
pub struct Interface {
    pub name: String,
    pub loopback: bool,
    /// Its address of the fourth version, if that is what it has.
    pub addr: Option<InterfaceAddr>,
}

/// The address of an interface.
#[derive(Debug, Clone, Copy, PartialEq, Eq)]
pub struct InterfaceAddr {
    pub ip: Ipv4Addr,
    pub netmask: Ipv4Addr,
    pub broadcast: Option<Ipv4Addr>,
}

impl Interface {
    /// Whether this device greets on the interface.
    pub open spec fn is_candidate(self) -> bool {
        &&& !self.loopback
        &&& !ignored_name(self.name@)
        &&& self.addr matches Some(addr) && addr.ip.is_candidate()
    }

    /// Where a greeting on the interface goes.
    pub open spec fn target(self) -> Option<Ipv4Addr> {
        if self.is_candidate() {
            let addr = self.addr->Some_0;
            match addr.broadcast {
                Some(broadcast) => Some(broadcast),
                None => Some(Ipv4Addr((addr.ip.0 & addr.netmask.0) | !addr.netmask.0)),
            }
        } else {
            None
        }
    }
}

/// Whether this device greets on an interface.
pub fn is_candidate_interface(interface: &Interface) -> (candidate: bool)
    ensures
        candidate == interface.is_candidate(),
{
    if interface.loopback || is_ignored_interface_name(interface.name.as_str()) {
        return false;
    }
    match &interface.addr {
        Some(addr) => is_candidate_ipv4(addr.ip),
        None => false,
    }
}

/// Where a greeting on an interface goes.
pub fn interface_broadcast_address(interface: &Interface) -> (target: Option<Ipv4Addr>)
    ensures
        target == interface.target(),
{
    if !is_candidate_interface(interface) {
        return None;
    }
    match &interface.addr {
        Some(addr) => match addr.broadcast {
            Some(broadcast) => Some(broadcast),
            None => Some(compute_directed_broadcast(addr.ip, addr.netmask)),
        },
        None => None,
    }
}

/// Whether a greeting goes to an address: because an interface leads there, or because it
/// is the address that reaches everybody.
pub open spec fn is_target(interfaces: Seq<Interface>, ip: Ipv4Addr) -> bool {
    ip.0 == u32::MAX || exists|i: int|
        0 <= i < interfaces.len() && (#[trigger] interfaces[i]).target() == Some(ip)
}

/// An interface is greeted on exactly if it is no loopback, its name has no marker and its
/// address is usable; then at the address that it says reaches everybody, and where it says
/// none, at the one of its network with all host bits set. Every such address is a target, and
/// so is the one that reaches everybody on whatever network.
pub proof fn usable_interfaces_are_greeted(
    interfaces: Seq<Interface>,
    i: int,
    addr: InterfaceAddr,
)
    requires
        0 <= i < interfaces.len(),
        interfaces[i].addr == Some(addr),
    ensures
        is_target(interfaces, Ipv4Addr(0xffff_ffff)),
        interfaces[i].target() is Some <==> !interfaces[i].loopback && !ignored_name(
            interfaces[i].name@,
        ) && addr.ip.is_candidate(),
        interfaces[i].target() matches Some(ip) ==> is_target(interfaces, ip) && match addr.broadcast {
            Some(broadcast) => ip == broadcast,
            None => ip.0 & addr.netmask.0 == addr.ip.0 & addr.netmask.0 && ip.0 | addr.netmask.0
                == 0xffff_ffffu32,
        },
{
    directed_broadcast_stays_in_the_network(addr.ip.0, addr.netmask.0);
}

/// Whether addresses stand in the order of their texts.
pub open spec fn by_text(addresses: Seq<SocketAddrV4>) -> bool {
    forall|i: int, j: int|
        0 <= i < j < addresses.len() ==> !text_before(
            (#[trigger] addresses[j]).ip.dotted(),
            (#[trigger] addresses[i]).ip.dotted(),
        )
}

/// An address that is put before the first one whose text comes behind its own changes no order.
proof fn lemma_insert_keeps_order(before: Seq<SocketAddrV4>, at: int, target: SocketAddrV4)
    requires
        by_text(before),
        0 <= at <= before.len(),
        forall|k: int|
            0 <= k < at ==> !text_before(target.ip.dotted(), (#[trigger] before[k]).ip.dotted()),
        at < before.len() ==> text_before(target.ip.dotted(), before[at].ip.dotted()),
    ensures
        by_text(before.insert(at, target)),
{
    let now = before.insert(at, target);
    assert forall|i: int, j: int| 0 <= i < j < now.len() implies !text_before(
        (#[trigger] now[j]).ip.dotted(),
        (#[trigger] now[i]).ip.dotted(),
    ) by {
        let x = if i < at {
            i
        } else {
            i - 1
        };
        let y = if j < at {
            j
        } else {
            j - 1
        };
        if i == at {
            assert(now[j] == before[y]);
            let text = encode_utf8(target.ip.dotted());
            let next = encode_utf8(before[at].ip.dotted());
            let other = encode_utf8(before[y].ip.dotted());
            lemma_before_asymmetric(text, next);
            if y > at && crate::text::before(other, text) {
                lemma_before_transitive(other, text, next);
            }
        } else if j == at {
            assert(now[i] == before[x]);
        } else {
            assert(now[i] == before[x]);
            assert(now[j] == before[y]);
        }
    }
}

/// An address that was not there is there once it was put in, and once only.
proof fn lemma_insert_keeps_members(before: Seq<SocketAddrV4>, at: int, target: SocketAddrV4)
    requires
        before.no_duplicates(),
        0 <= at <= before.len(),
        forall|k: int| 0 <= k < before.len() ==> #[trigger] before[k] != target,
    ensures
        before.insert(at, target).no_duplicates(),
        forall|other: SocketAddrV4| #[trigger]
            before.insert(at, target).contains(other) <==> before.contains(other) || other
                == target,
{
    let now = before.insert(at, target);
    assert forall|other: SocketAddrV4| #[trigger] now.contains(other) <==> before.contains(other)
        || other == target by {
        if before.contains(other) {
            let k = choose|k: int| 0 <= k < before.len() && before[k] == other;
            assert(now[if k < at {
                k
            } else {
                k + 1
            }] == other);
        }
        if other == target {
            assert(now[at] == other);
        }
        if now.contains(other) && other != target {
            let k = choose|k: int| 0 <= k < now.len() && now[k] == other;
            assert(before[if k < at {
                k
            } else {
                k - 1
            }] == other);
        }
    }
    assert forall|i: int, j: int| 0 <= i < now.len() && 0 <= j < now.len() && i != j implies now[i]
        != now[j] by {
        let x = if i < at {
            i
        } else {
            i - 1
        };
        let y = if j < at {
            j
        } else {
            j - 1
        };
        if i != at {
            assert(now[i] == before[x]);
        }
        if j != at {
            assert(now[j] == before[y]);
        }
    }
}

/// Puts an address where it belongs, unless it is there.
fn insert_target(targets: &mut Vec<SocketAddrV4>, target: SocketAddrV4)
    requires
        by_text(old(targets)@),
        old(targets)@.no_duplicates(),
    ensures
        by_text(final(targets)@),
        final(targets)@.no_duplicates(),
        forall|other: SocketAddrV4| #[trigger]
            final(targets)@.contains(other) <==> old(targets)@.contains(other) || other == target,
{
    let mut i: usize = 0;
    while i < targets.len()
        invariant
            i <= targets@.len(),
            targets@ == old(targets)@,
            by_text(old(targets)@),
            old(targets)@.no_duplicates(),
            forall|k: int| 0 <= k < i ==> #[trigger] targets@[k] != target,
        decreases targets@.len() - i,
    {
        if targets[i] == target {
            assert(old(targets)@[i as int] == target);
            return;
        }
        i += 1;
    }
    let text = target.ip.to_string();
    let mut at: usize = 0;
    while at < targets.len() && !comes_before(text.as_str(), targets[at].ip.to_string().as_str())
        invariant
            at <= targets@.len(),
            targets@ == old(targets)@,
            text@ == target.ip.dotted(),
            forall|k: int|
                0 <= k < at ==> !text_before(text@, (#[trigger] targets@[k]).ip.dotted()),
        decreases targets@.len() - at,
    {
        at += 1;
    }
    let ghost before = targets@;
    targets.insert(at, target);
    proof {
        assert(targets@ =~= before.insert(at as int, target));
        lemma_insert_keeps_order(before, at as int, target);
        lemma_insert_keeps_members(before, at as int, target);
    }
}

/// Where greetings go: to every candidate interface's network and to everybody, each
/// address once, in the order of their texts.
pub fn discovery_broadcast_targets(interfaces: &Vec<Interface>, port: u16) -> (targets: Vec<
    SocketAddrV4,
>)
    ensures
        by_text(targets@),
        targets@.no_duplicates(),
        forall|target: SocketAddrV4| #[trigger]
            targets@.contains(target) <==> target.port == port && is_target(
                interfaces@,
                target.ip,
            ),
{
    let mut targets: Vec<SocketAddrV4> = Vec::new();
    insert_target(&mut targets, broadcast_address(port));
    let mut i: usize = 0;
    while i < interfaces.len()
        invariant
            i <= interfaces@.len(),
            by_text(targets@),
            targets@.no_duplicates(),
            forall|target: SocketAddrV4| #[trigger]
                targets@.contains(target) <==> target.port == port && is_target(
                    interfaces@.take(i as int),
                    target.ip,
                ),
        decreases interfaces@.len() - i,
    {
        let ghost seen = interfaces@.take(i as int);
        let ghost more = interfaces@.take(i + 1);
        let ghost before = targets@;
        let found = interface_broadcast_address(&interfaces[i]);
        if let Some(ip) = found {
            insert_target(&mut targets, SocketAddrV4 { ip, port });
        }
        proof {
            assert forall|target: SocketAddrV4| #[trigger] targets@.contains(target) <==>
                target.port == port && is_target(more, target.ip) by {
                assert(before.contains(target) <==> target.port == port && is_target(
                    seen,
                    target.ip,
                ));
                if is_target(seen, target.ip) && target.ip.0 != u32::MAX {
                    let k = choose|k: int|
                        0 <= k < seen.len() && (#[trigger] seen[k]).target() == Some(target.ip);
                    assert(more[k] == seen[k]);
                }
                if found == Some(target.ip) {
                    assert(more[i as int].target() == Some(target.ip));
                }
                if is_target(more, target.ip) && target.ip.0 != u32::MAX {
                    let k = choose|k: int|
                        0 <= k < more.len() && (#[trigger] more[k]).target() == Some(target.ip);
                    if k < i {
                        assert(seen[k] == more[k]);
                    } else {
                        assert(found == Some(target.ip));
                    }
                }
            }
        }
        i += 1;
    }
    assert(interfaces@.take(i as int) =~= interfaces@);
    targets
}

/// An address is written as its four bytes in decimal, the most significant first, with dots
/// between them.
pub proof fn addresses_are_written_byte_by_byte(ip: Ipv4Addr)
    ensures
        ip.octet(0) * 0x100_0000 + ip.octet(1) * 0x1_0000 + ip.octet(2) * 0x100 + ip.octet(3)
            == ip.0,
        forall|i: int| 0 <= i < 4 ==> #[trigger] ip.octet(i) < 256,
        ip.dotted() == decimal(ip.octet(0)) + "."@ + decimal(ip.octet(1)) + "."@ + decimal(
            ip.octet(2),
        ) + "."@ + decimal(ip.octet(3)),
{
}

/// Bytes contain others exactly if those stand somewhere in them, one behind the other.
pub proof fn what_stands_in_bytes_is_found(before: Seq<u8>, part: Seq<u8>, behind: Seq<u8>)
    ensures
        contains_bytes(before + part + behind, part),
        contains_bytes(before, part) ==> exists|a: Seq<u8>, b: Seq<u8>|
            before == #[trigger] (a + part + b),
{
    let all = before + part + behind;
    let at = before.len() as int;
    assert(all.subrange(at, at + part.len()) =~= part);
    if contains_bytes(before, part) {
        let k = choose|k: int|
            0 <= k <= before.len() - part.len() && #[trigger] before.subrange(k, k + part.len())
                == part;
        let a = before.take(k);
        let b = before.skip(k + part.len());
        assert(before =~= a + before.subrange(k, k + part.len()) + b);
        assert(before == a + part + b);
    }
}

/// The names that say that an interface leads to no local network: those of virtual machines,
/// of containers, of tunnels, and of the device itself.
pub proof fn names_of_virtual_interfaces_are_ignored(name: Seq<char>)
    ensures
        ({
            let has = |marker: Seq<char>|
                contains_bytes(ascii_lower_all(encode_utf8(name)), encode_utf8(marker));
            let machines = has("vmware"@) || has("virtual"@) || has("vbox"@) || has("hyper-v"@)
                || has("vnic"@);
            let containers = has("docker"@) || has("podman"@);
            let tunnels = has("wintun"@) || has("wireguard"@) || has("tailscale"@) || has(
                "zerotier"@,
            ) || has("tap"@) || has("tun"@);
            let itself = has("loopback"@) || has("npcap"@);
            ignored_name(name) <==> machines || containers || tunnels || itself
        }),
{
    let lowered = ascii_lower_all(encode_utf8(name));
    assert forall|i: int| 0 <= i < 15 && #[trigger] contains_bytes(
        lowered,
        encode_utf8(ignored_marker(i)),
    ) implies ignored_name(name) by {}
    assert(contains_bytes(lowered, encode_utf8(ignored_marker(0))) ==> ignored_name(name));
    assert(contains_bytes(lowered, encode_utf8(ignored_marker(1))) ==> ignored_name(name));
    assert(contains_bytes(lowered, encode_utf8(ignored_marker(2))) ==> ignored_name(name));
    assert(contains_bytes(lowered, encode_utf8(ignored_marker(3))) ==> ignored_name(name));
    assert(contains_bytes(lowered, encode_utf8(ignored_marker(4))) ==> ignored_name(name));
    assert(contains_bytes(lowered, encode_utf8(ignored_marker(5))) ==> ignored_name(name));
    assert(contains_bytes(lowered, encode_utf8(ignored_marker(6))) ==> ignored_name(name));
    assert(contains_bytes(lowered, encode_utf8(ignored_marker(7))) ==> ignored_name(name));
    assert(contains_bytes(lowered, encode_utf8(ignored_marker(8))) ==> ignored_name(name));
    assert(contains_bytes(lowered, encode_utf8(ignored_marker(9))) ==> ignored_name(name));
    assert(contains_bytes(lowered, encode_utf8(ignored_marker(10))) ==> ignored_name(name));
    assert(contains_bytes(lowered, encode_utf8(ignored_marker(11))) ==> ignored_name(name));
    assert(contains_bytes(lowered, encode_utf8(ignored_marker(12))) ==> ignored_name(name));
    assert(contains_bytes(lowered, encode_utf8(ignored_marker(13))) ==> ignored_name(name));
    assert(contains_bytes(lowered, encode_utf8(ignored_marker(14))) ==> ignored_name(name));
}

} // verus!
