//! Who may attach an audio path, and what travels on it.
//!
//! An audio path belongs to an authenticated control connection. It is admitted by the
//! peer's certificate and by a token that the control connection has handed out.

use vstd::prelude::*;

use crate::encryption::{hex, sha256_digest, PeerCertificateFingerprint};
use crate::table::DeviceTable;
use crate::types::DeviceId;
use crate::wire;
use crate::wire::from_be32;

verus! {

/// The version of the audio protocol.
pub const MEDIA_VERSION: u16 = 1;

/// The longest control message of an audio path.
pub const MAX_CONTROL_BYTES: usize = 65536;

/// The longest audio packet.
pub const MAX_MEDIA_PACKET: usize = 9216;

/// How many peers may have an audio path.
pub const MAX_MEDIA_PEERS: usize = 32;

/// What a peer has to show to attach an audio path.
#[derive(Debug, PartialEq, Eq)]
pub struct Binding {
    pub peer: DeviceId,
    pub fingerprint: PeerCertificateFingerprint,
    pub token: DeviceId,
    pub generation: u64,
}

/// How a peer asks to attach an audio path.
#[derive(Debug, Clone, Copy, PartialEq, Eq, Structural)]
pub struct MediaBind {
    pub version: u16,
    pub peer: DeviceId,
    pub control_token: DeviceId,
    pub generation: u64,
}

/// Why an audio path is refused.
#[derive(Debug, Clone, Copy, PartialEq, Eq, Structural)]
pub enum MediaError {
    ZeroGeneration,
    PeerLimitExceeded,
    ExpectedBind,
    UnsupportedVersion,
    MissingCertificate,
    NoControlBinding,
    BindingMismatch,
    UnapprovedCertificate,
    ControlTooLarge,
    InvalidControlLength,
    PacketTooLarge,
}

/// The peers that may attach an audio path, and those that have.
pub struct Bindings<C> {
    pub bindings: DeviceTable<Binding>,
    pub active: DeviceTable<C>,
}

/// Those peers, as a value.
#[verifier::ext_equal]
pub struct BindingsView<C> {
    pub bindings: Map<u128, Binding>,
    pub active: Map<u128, C>,
}

impl<C> View for Bindings<C> {
    type V = BindingsView<C>;

    open spec fn view(&self) -> BindingsView<C> {
        BindingsView { bindings: self.bindings@, active: self.active@ }
    }
}

impl<C> BindingsView<C> {
    /// What holds of all bindings: they are not too many, each stands under its own peer
    /// and belongs to a control connection, and nobody has an audio path without one.
    pub open spec fn well_formed(self) -> bool {
        &&& self.bindings.dom().finite()
        &&& self.bindings.dom().len() <= MAX_MEDIA_PEERS
        &&& forall|id: u128| #[trigger]
            self.bindings.contains_key(id) ==> self.bindings[id].peer.0 == id
                && self.bindings[id].generation != 0
        &&& forall|id: u128| #[trigger]
            self.active.contains_key(id) ==> self.bindings.contains_key(id)
    }

    /// Whether a certificate is one that some peer is bound to.
    pub open spec fn accepts(self, cert_der: Seq<u8>) -> bool {
        exists|id: u128| #[trigger]
            self.bindings.contains_key(id) && self.bindings[id].fingerprint@ == hex(
                sha256_digest(cert_der),
            )
    }

    /// Whether a peer shows what it has to show.
    pub open spec fn admits(self, bind: MediaBind, cert_der: Seq<u8>) -> bool {
        &&& self.bindings.contains_key(bind.peer.0)
        &&& self.bindings[bind.peer.0].fingerprint@ == hex(sha256_digest(cert_der))
        &&& self.bindings[bind.peer.0].token == bind.control_token
        &&& self.bindings[bind.peer.0].generation == bind.generation
    }

    /// Why a peer may not be bound.
    pub open spec fn authorize_fault(self, binding: Binding) -> Option<MediaError> {
        if binding.generation == 0 {
            Some(MediaError::ZeroGeneration)
        } else if self.bindings.dom().len() >= MAX_MEDIA_PEERS && !self.bindings.contains_key(
            binding.peer.0,
        ) {
            Some(MediaError::PeerLimitExceeded)
        } else {
            None
        }
    }

    /// The bindings after a peer was bound: its audio path, if it had one, is gone.
    pub open spec fn after_authorize(self, binding: Binding) -> BindingsView<C> {
        BindingsView {
            bindings: self.bindings.insert(binding.peer.0, binding),
            active: self.active.remove(binding.peer.0),
        }
    }

    /// The bindings after a peer lost its own.
    pub open spec fn after_revoke(self, peer: DeviceId) -> BindingsView<C> {
        BindingsView {
            bindings: self.bindings.remove(peer.0),
            active: self.active.remove(peer.0),
        }
    }

    /// Why a peer may not attach an audio path.
    pub open spec fn bind_fault(self, bind: MediaBind, cert_der: Option<Seq<u8>>) -> Option<
        MediaError,
    > {
        match cert_der {
            None => Some(MediaError::MissingCertificate),
            Some(cert) => if !self.bindings.contains_key(bind.peer.0) {
                Some(MediaError::NoControlBinding)
            } else if !self.admits(bind, cert) {
                Some(MediaError::BindingMismatch)
            } else {
                None
            },
        }
    }
}

impl<C> Bindings<C> {
    pub fn new() -> (bindings: Self)
        ensures
            bindings@.bindings == Map::<u128, Binding>::empty(),
            bindings@.active == Map::<u128, C>::empty(),
            bindings@.well_formed(),
    {
        Bindings { bindings: DeviceTable::new(), active: DeviceTable::new() }
    }

    /// Binds a peer, once its control connection is authenticated. An audio path that it
    /// had comes back to be closed.
    pub fn authorize(&mut self, binding: Binding) -> (closed: Result<Option<C>, MediaError>)
        requires
            old(self)@.well_formed(),
        ensures
            final(self)@.well_formed(),
            match closed {
                Ok(connection) => {
                    &&& old(self)@.authorize_fault(binding) is None
                    &&& final(self)@ == old(self)@.after_authorize(binding)
                    &&& connection == (if old(self)@.active.contains_key(binding.peer.0) {
                        Some(old(self)@.active[binding.peer.0])
                    } else {
                        None
                    })
                },
                Err(error) => old(self)@.authorize_fault(binding) == Some(error) && final(self)@
                    == old(self)@,
            },
    {
        if binding.generation == 0 {
            return Err(MediaError::ZeroGeneration);
        }
        let peer = binding.peer;
        if self.bindings.len() >= MAX_MEDIA_PEERS && !self.bindings.contains(peer) {
            return Err(MediaError::PeerLimitExceeded);
        }
        let connection = self.active.remove(peer);
        self.bindings.insert(peer, binding);
        proof {
            assert(self@.bindings.dom() =~= old(self)@.bindings.dom().insert(peer.0));
            assert forall|id: u128| #[trigger] self@.bindings.contains_key(id) implies
                self@.bindings[id].peer.0 == id && self@.bindings[id].generation != 0 by {
                if id != peer.0 {
                    assert(old(self)@.bindings.contains_key(id));
                }
            }
            assert forall|id: u128| #[trigger] self@.active.contains_key(id) implies
                self@.bindings.contains_key(id) by {
                assert(old(self)@.active.contains_key(id));
            }
        }
        Ok(connection)
    }

    /// Takes a peer's binding away. Its token is worthless from here on, and its audio
    /// path comes back to be closed.
    pub fn revoke(&mut self, peer: DeviceId) -> (closed: Option<C>)
        requires
            old(self)@.well_formed(),
        ensures
            final(self)@.well_formed(),
            final(self)@ == old(self)@.after_revoke(peer),
            closed == (if old(self)@.active.contains_key(peer.0) {
                Some(old(self)@.active[peer.0])
            } else {
                None
            }),
    {
        self.bindings.remove(peer);
        let closed = self.active.remove(peer);
        proof {
            assert(self@.bindings.dom() =~= old(self)@.bindings.dom().remove(peer.0));
            assert forall|id: u128| #[trigger] self@.bindings.contains_key(id) implies
                self@.bindings[id].peer.0 == id && self@.bindings[id].generation != 0 by {
                assert(old(self)@.bindings.contains_key(id));
            }
            assert forall|id: u128| #[trigger] self@.active.contains_key(id) implies
                self@.bindings.contains_key(id) by {
                assert(old(self)@.active.contains_key(id));
            }
        }
        closed
    }

    /// Whether a certificate is one that some peer is bound to.
    pub fn accepts(&self, cert_der: &[u8]) -> (accepted: bool)
        ensures
            accepted == self@.accepts(cert_der@),
    {
        let pin = PeerCertificateFingerprint::from_der(cert_der);
        let ids = self.bindings.ids();
        let mut i: usize = 0;
        while i < ids.len()
            invariant
                i <= ids@.len(),
                pin@ == hex(sha256_digest(cert_der@)),
                forall|id: DeviceId| #[trigger]
                    ids@.contains(id) <==> self@.bindings.contains_key(id.0),
                forall|k: int|
                    0 <= k < i ==> self@.bindings[(#[trigger] ids@[k]).0].fingerprint@ != pin@,
            decreases ids@.len() - i,
        {
            let id = ids[i];
            assert(ids@.contains(id));
            if let Some(binding) = self.bindings.get(id) {
                if binding.fingerprint.same_as(&pin) {
                    assert(self@.bindings.contains_key(id.0));
                    return true;
                }
            }
            i += 1;
        }
        proof {
            assert forall|id: u128| #[trigger] self@.bindings.contains_key(id) implies
                self@.bindings[id].fingerprint@ != pin@ by {
                assert(ids@.contains(DeviceId(id)));
                let k = choose|k: int| 0 <= k < ids@.len() && ids@[k] == DeviceId(id);
                assert(self@.bindings[ids@[k].0].fingerprint@ != pin@);
            }
        }
        false
    }

    /// Attaches an audio path to a peer that shows what it has to show. The path that it
    /// takes the place of comes back to be closed.
    pub fn bind(&mut self, bind: MediaBind, cert_der: Option<&[u8]>, connection: C) -> (replaced:
        Result<Option<C>, MediaError>)
        requires
            old(self)@.well_formed(),
        ensures
            final(self)@.well_formed(),
            ({
                let cert = match cert_der {
                    Some(der) => Some(der@),
                    None => None,
                };
                match replaced {
                    Ok(previous) => {
                        &&& old(self)@.bind_fault(bind, cert) is None
                        &&& final(self)@ == (BindingsView {
                            active: old(self)@.active.insert(bind.peer.0, connection),
                            ..old(self)@
                        })
                        &&& previous == (if old(self)@.active.contains_key(bind.peer.0) {
                            Some(old(self)@.active[bind.peer.0])
                        } else {
                            None
                        })
                    },
                    Err(error) => old(self)@.bind_fault(bind, cert) == Some(error) && final(self)@ == old(self)@,
                }
            }),
    {
        let cert_der = match cert_der {
            Some(cert_der) => cert_der,
            None => {
                return Err(MediaError::MissingCertificate);
            },
        };
        let pin = PeerCertificateFingerprint::from_der(cert_der);
        let matched = match self.bindings.get(bind.peer) {
            Some(binding) => binding.fingerprint.same_as(&pin) && binding.token
                == bind.control_token && binding.generation == bind.generation,
            None => {
                return Err(MediaError::NoControlBinding);
            },
        };
        if !matched {
            return Err(MediaError::BindingMismatch);
        }
        let previous = self.active.insert(bind.peer, connection);
        proof {
            assert forall|id: u128| #[trigger] self@.active.contains_key(id) implies
                self@.bindings.contains_key(id) by {
                if id != bind.peer.0 {
                    assert(old(self)@.active.contains_key(id));
                }
            }
        }
        Ok(previous)
    }
}

/// Whether a certificate is acceptable: the pinned one where there is a pin, else any that
/// some peer is bound to.
pub fn check_certificate<C>(
    bindings: &Bindings<C>,
    pin: Option<&PeerCertificateFingerprint>,
    cert_der: &[u8],
) -> (checked: Result<(), MediaError>)
    ensures
        ({
            let accepted = match pin {
                Some(pinned) => pinned@ == hex(sha256_digest(cert_der@)),
                None => bindings@.accepts(cert_der@),
            };
            match checked {
                Ok(()) => accepted,
                Err(error) => !accepted && error == MediaError::UnapprovedCertificate,
            }
        }),
{
    let accepted = match pin {
        Some(pin) => pin.same_as(&PeerCertificateFingerprint::from_der(cert_der)),
        None => bindings.accepts(cert_der),
    };
    if accepted {
        Ok(())
    } else {
        Err(MediaError::UnapprovedCertificate)
    }
}

/// Looks at the first control message of an audio path; `None` stands for another message.
pub fn expect_bind(message: Option<MediaBind>) -> (bind: Result<MediaBind, MediaError>)
    ensures
        match bind {
            Ok(asked) => message == Some(asked) && asked.version == MEDIA_VERSION,
            Err(MediaError::ExpectedBind) => message is None,
            Err(MediaError::UnsupportedVersion) => message matches Some(asked) && asked.version
                != MEDIA_VERSION,
            Err(_) => false,
        },
{
    match message {
        None => Err(MediaError::ExpectedBind),
        Some(bind) => {
            if bind.version != MEDIA_VERSION {
                Err(MediaError::UnsupportedVersion)
            } else {
                Ok(bind)
            }
        },
    }
}

/// Whether a control message of this length may be sent.
pub fn check_control_size(len: usize) -> (checked: Result<(), MediaError>)
    ensures
        match checked {
            Ok(()) => len <= MAX_CONTROL_BYTES,
            Err(error) => len > MAX_CONTROL_BYTES && error == MediaError::ControlTooLarge,
        },
{
    if len > MAX_CONTROL_BYTES {
        Err(MediaError::ControlTooLarge)
    } else {
        Ok(())
    }
}

/// The length of the control message that follows.
pub fn control_length(prefix: &[u8]) -> (length: Result<usize, MediaError>)
    requires
        prefix@.len() == 4,
    ensures
        match length {
            Ok(len) => len == from_be32(prefix@) && 0 < len <= MAX_CONTROL_BYTES,
            Err(error) => (from_be32(prefix@) == 0 || from_be32(prefix@) > MAX_CONTROL_BYTES)
                && error == MediaError::InvalidControlLength,
        },
{
    assert(prefix@.skip(0) =~= prefix@);
    let length: usize = wire::read_u32(prefix, 0) as usize;
    if length == 0 || length > MAX_CONTROL_BYTES {
        Err(MediaError::InvalidControlLength)
    } else {
        Ok(length)
    }
}

/// Whether an audio packet of this length may travel.
pub fn check_packet_size(len: usize) -> (checked: Result<(), MediaError>)
    ensures
        match checked {
            Ok(()) => len <= MAX_MEDIA_PACKET,
            Err(error) => len > MAX_MEDIA_PACKET && error == MediaError::PacketTooLarge,
        },
{
    if len > MAX_MEDIA_PACKET {
        Err(MediaError::PacketTooLarge)
    } else {
        Ok(())
    }
}

/// A peer whose binding was taken away cannot attach an audio path, whatever it shows.
pub proof fn revoked_peers_cannot_attach<C>(
    view: BindingsView<C>,
    bind: MediaBind,
    cert_der: Seq<u8>,
)
    ensures
        view.after_revoke(bind.peer).bind_fault(bind, Some(cert_der)) == Some(
            MediaError::NoControlBinding,
        ),
        !view.after_revoke(bind.peer).active.contains_key(bind.peer.0),
{
}

/// Once a peer was bound anew, what it had to show before is worth nothing, unless it is
/// the same.
pub proof fn old_tokens_expire<C>(
    view: BindingsView<C>,
    binding: Binding,
    bind: MediaBind,
    cert_der: Seq<u8>,
)
    requires
        bind.peer == binding.peer,
        bind.control_token != binding.token || bind.generation != binding.generation,
    ensures
        view.after_authorize(binding).bind_fault(bind, Some(cert_der)) == Some(
            MediaError::BindingMismatch,
        ),
{
}

/// A peer that was bound attaches an audio path with its certificate and its token.
pub proof fn bound_peers_attach<C>(view: BindingsView<C>, binding: Binding, cert_der: Seq<u8>)
    requires
        binding.fingerprint@ == hex(sha256_digest(cert_der)),
    ensures
        view.after_authorize(binding).accepts(cert_der),
        view.after_authorize(binding).bind_fault(
            MediaBind {
                version: MEDIA_VERSION,
                peer: binding.peer,
                control_token: binding.token,
                generation: binding.generation,
            },
            Some(cert_der),
        ) is None,
{
    assert(view.after_authorize(binding).bindings.contains_key(binding.peer.0));
}

/// An audio path is attached exactly if the peer is bound and shows the certificate, the token
/// and the generation of its binding. What is wrong is told apart: no certificate, no binding,
/// or something that does not fit.
pub proof fn audio_paths_have_to_fit_in_everything<C>(
    view: BindingsView<C>,
    bind: MediaBind,
    cert_der: Seq<u8>,
)
    ensures
        view.bind_fault(bind, None) == Some(MediaError::MissingCertificate),
        !view.bindings.contains_key(bind.peer.0) ==> view.bind_fault(bind, Some(cert_der)) == Some(
            MediaError::NoControlBinding,
        ),
        view.bindings.contains_key(bind.peer.0) ==> {
            let binding = view.bindings[bind.peer.0];
            let fits = binding.fingerprint@ == hex(sha256_digest(cert_der)) && binding.token
                == bind.control_token && binding.generation == bind.generation;
            &&& fits ==> view.bind_fault(bind, Some(cert_der)) is None
            &&& !fits ==> view.bind_fault(bind, Some(cert_der)) == Some(MediaError::BindingMismatch)
        },
{
}

/// A certificate that no peer is bound to is not acceptable.
pub proof fn unknown_certificates_are_not_acceptable<C>(view: BindingsView<C>, cert_der: Seq<u8>)
    requires
        forall|id: u128| #[trigger]
            view.bindings.contains_key(id) ==> view.bindings[id].fingerprint@ != hex(
                sha256_digest(cert_der),
            ),
    ensures
        !view.accepts(cert_der),
{
}

/// A peer is bound unless it names no control connection, or 32 others are bound already. One
/// that is bound can be bound anew.
pub proof fn peers_are_bound_while_there_is_room<C>(view: BindingsView<C>, binding: Binding)
    requires
        view.well_formed(),
    ensures
        binding.generation == 0 <==> view.authorize_fault(binding) == Some(
            MediaError::ZeroGeneration,
        ),
        binding.generation != 0 && view.bindings.dom().len() < 32 ==> view.authorize_fault(binding)
            is None,
        binding.generation != 0 && view.bindings.contains_key(binding.peer.0)
            ==> view.authorize_fault(binding) is None,
        binding.generation != 0 && view.bindings.dom().len() == 32 && !view.bindings.contains_key(
            binding.peer.0,
        ) ==> view.authorize_fault(binding) == Some(MediaError::PeerLimitExceeded),
{
}

/// Binding a peer ends its audio path and leaves every other peer alone; so does taking its
/// binding away.
pub proof fn bindings_change_for_one_peer<C>(
    view: BindingsView<C>,
    binding: Binding,
    other: u128,
)
    ensures
        ({
            let bound = view.after_authorize(binding);
            let revoked = view.after_revoke(binding.peer);
            &&& bound.bindings.contains_key(binding.peer.0)
            &&& bound.bindings[binding.peer.0] == binding
            &&& !bound.active.contains_key(binding.peer.0)
            &&& !revoked.bindings.contains_key(binding.peer.0)
            &&& !revoked.active.contains_key(binding.peer.0)
            &&& other != binding.peer.0 ==> {
                &&& bound.bindings.contains_key(other) == view.bindings.contains_key(other)
                &&& bound.bindings[other] == view.bindings[other]
                &&& bound.active.contains_key(other) == view.active.contains_key(other)
                &&& bound.active[other] == view.active[other]
                &&& revoked.bindings.contains_key(other) == view.bindings.contains_key(other)
                &&& revoked.bindings[other] == view.bindings[other]
                &&& revoked.active.contains_key(other) == view.active.contains_key(other)
                &&& revoked.active[other] == view.active[other]
            }
        }),
{
}

} // verus!
