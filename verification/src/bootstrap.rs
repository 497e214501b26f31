//! The way of a connection from its first byte to authenticated traffic.
//!
//! A peer opens one stream, puts one greeting on it and finishes it. Both readers then
//! acknowledge that nothing else is waiting, and only after that traffic is taken.

use vstd::prelude::*;

use crate::handshake::{is_bootstrap, is_bootstrap_message, BOOTSTRAP_MAX_MESSAGE_SIZE};
use crate::lanes::CloseReason;
use crate::message::Message;
use crate::wire;
use crate::wire::from_be32;

verus! {

/// How many authenticated streams are read at a time.
pub const AUTHENTICATED_UNI_STREAM_TASK_BUDGET: usize = 32;

/// Who has to acknowledge that nothing came before its time.
#[derive(Debug, Clone, Copy, PartialEq, Eq, Structural)]
pub enum BootstrapReader {
    Reliable,
    Datagram,
}

/// What a stream is that the peer has opened.
#[derive(Debug, Clone, Copy, PartialEq, Eq, Structural)]
pub enum StreamRole {
    /// The one stream of the bootstrap.
    Bootstrap,
    /// A stream of the authenticated peer.
    Authenticated,
    /// A stream before its time: the connection closes.
    TooEarly(CloseReason),
}

/// What a message on the bootstrap stream comes to.
pub enum BootstrapStep {
    /// The bytes were no message; the next frame is read.
    Skip,
    /// The message is delivered, and the stream has to end.
    Deliver(Message),
    /// The connection closes.
    Close(CloseReason),
}

/// What follows the message on the bootstrap stream.
#[derive(Debug, Clone, Copy, PartialEq, Eq, Structural)]
pub enum StreamTail {
    End,
    Data,
    Failed,
    TimedOut,
}

/// Why a bootstrap does not come to its end.
#[derive(Debug, Clone, Copy, PartialEq, Eq, Structural)]
pub enum BootstrapFailure {
    StreamNotVerified,
    ReadersNotAcknowledged,
    PeerClosed,
}

/// What happens to a connection on its way.
pub enum BootstrapEvent {
    /// The bootstrap stream was read; `None` stands for bytes that are no message.
    Read(Option<Message>),
    /// This follows the message on the bootstrap stream.
    Followed(StreamTail),
    /// Both readers are asked to acknowledge.
    CommitRequested,
    /// A reader acknowledges.
    Acknowledged(BootstrapReader),
    /// The connection is to be opened to authenticated traffic.
    Opened { peer_closed: bool },
}

/// Where a connection stands.
#[derive(Debug, Clone, Copy, PartialEq, Eq, Structural)]
pub struct Bootstrap {
    /// Whether the peer has to introduce itself at all.
    pub required: bool,
    pub stream_seen: bool,
    pub stream_verified: bool,
    pub commit_requested: bool,
    pub reliable_acknowledged: bool,
    pub datagram_acknowledged: bool,
    pub complete: bool,
}

impl Bootstrap {
    /// What holds of every connection. It is complete only once the bootstrap stream was
    /// read to its end and both readers have acknowledged.
    pub open spec fn well_formed(self) -> bool {
        &&& self.required || self.complete
        &&& self.complete ==> self.stream_verified && self.reliable_acknowledged
            && self.datagram_acknowledged
        &&& self.stream_verified ==> self.stream_seen
        &&& self.required ==> {
            &&& self.commit_requested ==> self.stream_verified
            &&& self.reliable_acknowledged || self.datagram_acknowledged ==> self.commit_requested
        }
    }

    /// Whether something can happen now. What follows a message is looked at once there was
    /// one, and readers acknowledge once they were asked to.
    pub open spec fn permits(self, event: BootstrapEvent) -> bool {
        match event {
            BootstrapEvent::Read(_) => !self.complete,
            BootstrapEvent::Followed(_) => self.stream_seen,
            BootstrapEvent::Acknowledged(_) => self.commit_requested,
            _ => true,
        }
    }

    /// Where a connection stands once something has happened to it.
    pub open spec fn next(self, event: BootstrapEvent) -> Bootstrap {
        match event {
            BootstrapEvent::Read(Some(message)) if is_bootstrap(message) => Bootstrap {
                stream_seen: true,
                ..self
            },
            BootstrapEvent::Read(_) => self,
            BootstrapEvent::Followed(StreamTail::End) => Bootstrap {
                stream_verified: true,
                ..self
            },
            BootstrapEvent::Followed(_) => self,
            BootstrapEvent::CommitRequested => Bootstrap {
                commit_requested: self.commit_requested || self.stream_verified,
                ..self
            },
            BootstrapEvent::Acknowledged(BootstrapReader::Reliable) => Bootstrap {
                reliable_acknowledged: true,
                ..self
            },
            BootstrapEvent::Acknowledged(BootstrapReader::Datagram) => Bootstrap {
                datagram_acknowledged: true,
                ..self
            },
            BootstrapEvent::Opened { peer_closed } => Bootstrap {
                complete: self.complete || (self.stream_verified && self.reliable_acknowledged
                    && self.datagram_acknowledged && !peer_closed),
                ..self
            },
        }
    }

    /// A connection that was just made.
    pub fn new(required: bool) -> (bootstrap: Self)
        ensures
            bootstrap.well_formed(),
            bootstrap.required == required,
            bootstrap.complete == !required,
            bootstrap.stream_seen == !required,
            bootstrap.stream_verified == !required,
            !bootstrap.commit_requested,
            bootstrap.reliable_acknowledged == !required,
            bootstrap.datagram_acknowledged == !required,
    {
        Bootstrap {
            required,
            stream_seen: !required,
            stream_verified: !required,
            commit_requested: false,
            reliable_acknowledged: !required,
            datagram_acknowledged: !required,
            complete: !required,
        }
    }

    /// What a stream is that the peer opens now.
    pub open spec fn role(self) -> StreamRole {
        if self.complete {
            StreamRole::Authenticated
        } else if !self.stream_seen {
            StreamRole::Bootstrap
        } else if self.commit_requested {
            StreamRole::TooEarly(CloseReason::StreamDuringCommit)
        } else {
            StreamRole::TooEarly(CloseReason::PreAuthenticationStream)
        }
    }

    /// What a stream is that the peer opens now.
    pub fn stream_opened(&self) -> (role: StreamRole)
        ensures
            role == self.role(),
    {
        if self.complete {
            StreamRole::Authenticated
        } else if !self.stream_seen {
            StreamRole::Bootstrap
        } else if self.commit_requested {
            StreamRole::TooEarly(CloseReason::StreamDuringCommit)
        } else {
            StreamRole::TooEarly(CloseReason::PreAuthenticationStream)
        }
    }

    /// Why a datagram that comes now closes the connection; `None` where it is read.
    pub fn datagram_received(&self) -> (close: Option<CloseReason>)
        ensures
            close == (if self.complete {
                None
            } else if self.commit_requested {
                Some(CloseReason::DatagramDuringCommit)
            } else {
                Some(CloseReason::DatagramBeforeAuthentication)
            }),
    {
        if self.complete {
            None
        } else if self.commit_requested {
            Some(CloseReason::DatagramDuringCommit)
        } else {
            Some(CloseReason::DatagramBeforeAuthentication)
        }
    }

    /// Looks at what was read from the bootstrap stream; `None` stands for bytes that are
    /// no message.
    pub fn read_message(&mut self, message: Option<Message>) -> (step: BootstrapStep)
        requires
            old(self).well_formed(),
            !old(self).complete,
        ensures
            final(self).well_formed(),
            *final(self) == old(self).next(BootstrapEvent::Read(message)),
            match step {
                BootstrapStep::Skip => message is None && *final(self) == *old(self),
                BootstrapStep::Deliver(delivered) => message == Some(delivered) && is_bootstrap(
                    delivered,
                ) && *final(self) == (Bootstrap { stream_seen: true, ..*old(self) }),
                BootstrapStep::Close(reason) => message is Some && !is_bootstrap(
                    message->Some_0,
                ) && reason == CloseReason::IllegalBootstrapMessage && *final(self) == *old(self),
            },
    {
        match message {
            None => BootstrapStep::Skip,
            Some(message) => {
                if is_bootstrap_message(&message) {
                    self.stream_seen = true;
                    BootstrapStep::Deliver(message)
                } else {
                    BootstrapStep::Close(CloseReason::IllegalBootstrapMessage)
                }
            },
        }
    }

    /// Looks at what follows the message on the bootstrap stream.
    pub fn enforce_bootstrap_stream_eof(&mut self, tail: StreamTail) -> (ended: Result<
        (),
        CloseReason,
    >)
        requires
            old(self).well_formed(),
            old(self).stream_seen,
        ensures
            final(self).well_formed(),
            *final(self) == old(self).next(BootstrapEvent::Followed(tail)),
            match ended {
                Ok(()) => tail == StreamTail::End && *final(self) == (Bootstrap {
                    stream_verified: true,
                    ..*old(self)
                }),
                Err(reason) => *final(self) == *old(self) && reason == (match tail {
                    StreamTail::Data => CloseReason::BootstrapTrailingData,
                    StreamTail::TimedOut => CloseReason::BootstrapNotFinished,
                    _ => CloseReason::BootstrapCloseCheckFailed,
                }) && tail != StreamTail::End,
            },
    {
        match tail {
            StreamTail::End => {
                self.stream_verified = true;
                Ok(())
            },
            StreamTail::Data => Err(CloseReason::BootstrapTrailingData),
            StreamTail::Failed => Err(CloseReason::BootstrapCloseCheckFailed),
            StreamTail::TimedOut => Err(CloseReason::BootstrapNotFinished),
        }
    }

    /// Asks both readers to acknowledge, once the bootstrap stream was read to its end.
    pub fn request_commit(&mut self) -> (requested: Result<(), BootstrapFailure>)
        requires
            old(self).well_formed(),
        ensures
            final(self).well_formed(),
            *final(self) == old(self).next(BootstrapEvent::CommitRequested),
            match requested {
                Ok(()) => old(self).stream_verified && *final(self) == (Bootstrap {
                    commit_requested: true,
                    ..*old(self)
                }),
                Err(failure) => !old(self).stream_verified && *final(self) == *old(self) && failure
                    == BootstrapFailure::StreamNotVerified,
            },
    {
        if !self.stream_verified {
            return Err(BootstrapFailure::StreamNotVerified);
        }
        self.commit_requested = true;
        Ok(())
    }

    /// A reader has seen nothing before its time.
    pub fn mark_bootstrap_reader_ack(&mut self, reader: BootstrapReader)
        requires
            old(self).well_formed(),
            old(self).commit_requested,
        ensures
            final(self).well_formed(),
            *final(self) == old(self).next(BootstrapEvent::Acknowledged(reader)),
            *final(self) == (match reader {
                BootstrapReader::Reliable => Bootstrap {
                    reliable_acknowledged: true,
                    ..*old(self)
                },
                BootstrapReader::Datagram => Bootstrap {
                    datagram_acknowledged: true,
                    ..*old(self)
                },
            }),
    {
        match reader {
            BootstrapReader::Reliable => {
                self.reliable_acknowledged = true;
            },
            BootstrapReader::Datagram => {
                self.datagram_acknowledged = true;
            },
        }
    }

    /// Opens the connection to authenticated traffic, if everything is in place.
    pub fn complete_peer_protocol_handshake(&mut self, peer_closed: bool) -> (completed: Result<
        (),
        BootstrapFailure,
    >)
        requires
            old(self).well_formed(),
        ensures
            final(self).well_formed(),
            *final(self) == old(self).next(BootstrapEvent::Opened { peer_closed }),
            match completed {
                Ok(()) => *final(self) == (Bootstrap { complete: true, ..*old(self) }) && (
                old(self).complete || (old(self).stream_verified && old(self).reliable_acknowledged && old(self).datagram_acknowledged && !peer_closed)),
                Err(failure) => *final(self) == *old(self) && !old(self).complete && failure == (
                if !old(self).stream_verified {
                    BootstrapFailure::StreamNotVerified
                } else if !(old(self).reliable_acknowledged && old(self).datagram_acknowledged) {
                    BootstrapFailure::ReadersNotAcknowledged
                } else {
                    BootstrapFailure::PeerClosed
                }) && !(old(self).stream_verified && old(self).reliable_acknowledged && old(self).datagram_acknowledged && !peer_closed),
            },
    {
        if self.complete {
            return Ok(());
        }
        if !self.stream_verified {
            return Err(BootstrapFailure::StreamNotVerified);
        }
        if !(self.reliable_acknowledged && self.datagram_acknowledged) {
            return Err(BootstrapFailure::ReadersNotAcknowledged);
        }
        if peer_closed {
            return Err(BootstrapFailure::PeerClosed);
        }
        self.complete = true;
        Ok(())
    }
}

/// The length of the frame that follows on the bootstrap stream.
pub fn bootstrap_frame_length(prefix: &[u8], max_message_size: usize) -> (length: Result<
    usize,
    CloseReason,
>)
    requires
        prefix@.len() == 4,
    ensures
        match length {
            Ok(len) => len == from_be32(prefix@) && len <= max_message_size && len
                <= BOOTSTRAP_MAX_MESSAGE_SIZE,
            Err(reason) => (from_be32(prefix@) > max_message_size || from_be32(prefix@)
                > BOOTSTRAP_MAX_MESSAGE_SIZE) && reason == CloseReason::FrameLimitExceeded,
        },
{
    assert(prefix@.skip(0) =~= prefix@);
    let length: usize = wire::read_u32(prefix, 0) as usize;
    if length > max_message_size || length > BOOTSTRAP_MAX_MESSAGE_SIZE {
        Err(CloseReason::FrameLimitExceeded)
    } else {
        Ok(length)
    }
}

/// How many authenticated streams are being read.
#[derive(Debug, Clone, Copy, PartialEq, Eq, Structural)]
pub struct StreamBudget {
    pub active: usize,
}

impl StreamBudget {
    /// What holds of every budget: it is never overdrawn.
    pub open spec fn well_formed(self) -> bool {
        self.active <= AUTHENTICATED_UNI_STREAM_TASK_BUDGET
    }

    pub fn new() -> (budget: Self)
        ensures
            budget.active == 0,
            budget.well_formed(),
    {
        StreamBudget { active: 0 }
    }

    /// Takes one stream more. A connection that cannot is closed.
    pub fn try_acquire(&mut self) -> (acquired: Result<(), CloseReason>)
        requires
            old(self).well_formed(),
        ensures
            final(self).well_formed(),
            match acquired {
                Ok(()) => old(self).active < AUTHENTICATED_UNI_STREAM_TASK_BUDGET
                    && final(self).active == old(self).active + 1,
                Err(reason) => old(self).active == AUTHENTICATED_UNI_STREAM_TASK_BUDGET
                    && *final(self) == *old(self) && reason == CloseReason::TaskBudgetExhausted,
            },
    {
        if self.active >= AUTHENTICATED_UNI_STREAM_TASK_BUDGET {
            return Err(CloseReason::TaskBudgetExhausted);
        }
        self.active = self.active + 1;
        Ok(())
    }

    /// A stream was read to its end.
    pub fn release(&mut self)
        requires
            old(self).well_formed(),
            old(self).active > 0,
        ensures
            final(self).well_formed(),
            final(self).active == old(self).active - 1,
    {
        self.active = self.active - 1;
    }
}

/// Nothing of a peer that has to introduce itself is read before it has: a stream is
/// taken for authenticated only once the bootstrap stream was read to its end and both
/// readers have found nothing else.
pub proof fn nothing_is_read_before_authentication(bootstrap: Bootstrap)
    requires
        bootstrap.well_formed(),
        bootstrap.required,
        bootstrap.role() == StreamRole::Authenticated,
    ensures
        bootstrap.stream_seen,
        bootstrap.stream_verified,
        bootstrap.commit_requested,
        bootstrap.reliable_acknowledged,
        bootstrap.datagram_acknowledged,
{
}

/// There is one bootstrap stream: once its greeting was delivered, no other stream is
/// taken for one.
pub proof fn one_bootstrap_stream(bootstrap: Bootstrap)
    requires
        bootstrap.stream_seen,
    ensures
        bootstrap.role() != StreamRole::Bootstrap,
{
}

/// What a stream is that is opened at each stage: the bootstrap stream first, an authenticated
/// one at the end, and too early in between.
pub proof fn streams_have_their_time(bootstrap: Bootstrap)
    ensures
        bootstrap.complete <==> bootstrap.role() == StreamRole::Authenticated,
        !bootstrap.complete && !bootstrap.stream_seen <==> bootstrap.role()
            == StreamRole::Bootstrap,
        !bootstrap.complete && bootstrap.stream_seen && bootstrap.commit_requested
            ==> bootstrap.role() == StreamRole::TooEarly(CloseReason::StreamDuringCommit),
        !bootstrap.complete && bootstrap.stream_seen && !bootstrap.commit_requested
            ==> bootstrap.role() == StreamRole::TooEarly(CloseReason::PreAuthenticationStream),
{
}

/// Where a connection stands after everything that has happened to it, oldest first.
pub open spec fn bootstrap_after(start: Bootstrap, events: Seq<BootstrapEvent>) -> Bootstrap
    decreases events.len(),
{
    if events.len() == 0 {
        start
    } else {
        bootstrap_after(start, events.drop_last()).next(events.last())
    }
}

/// Whether each of these things could happen when it did.
pub open spec fn bootstrap_permits(start: Bootstrap, events: Seq<BootstrapEvent>) -> bool
    decreases events.len(),
{
    events.len() > 0 ==> bootstrap_permits(start, events.drop_last()) && bootstrap_after(
        start,
        events.drop_last(),
    ).permits(events.last())
}

/// Whether nothing has happened yet to a connection whose peer has to introduce itself.
pub open spec fn has_just_begun(bootstrap: Bootstrap) -> bool {
    &&& bootstrap.required
    &&& !bootstrap.stream_seen && !bootstrap.stream_verified && !bootstrap.commit_requested
    &&& !bootstrap.reliable_acknowledged && !bootstrap.datagram_acknowledged
    &&& !bootstrap.complete
}

/// Whether a greeting came, then the end of its stream, then the request to acknowledge, all of
/// them before `end`.
pub open spec fn introduced_before(
    events: Seq<BootstrapEvent>,
    greeting: int,
    ending: int,
    commit: int,
    end: int,
) -> bool {
    &&& 0 <= greeting < ending < commit < end <= events.len()
    &&& events[greeting] matches BootstrapEvent::Read(Some(message)) && (message is Hello
        || message is HelloBack || message is HelloRejected)
    &&& events[ending] == BootstrapEvent::Followed(StreamTail::End)
    &&& events[commit] == BootstrapEvent::CommitRequested
}

proof fn greeting_of(start: Bootstrap, events: Seq<BootstrapEvent>) -> (greeting: int)
    requires
        has_just_begun(start),
        bootstrap_after(start, events).stream_seen,
    ensures
        0 <= greeting < events.len(),
        events[greeting] matches BootstrapEvent::Read(Some(message)) && (message is Hello
            || message is HelloBack || message is HelloRejected),
    decreases events.len(),
{
    if bootstrap_after(start, events.drop_last()).stream_seen {
        greeting_of(start, events.drop_last())
    } else {
        events.len() - 1
    }
}

proof fn ending_of(start: Bootstrap, events: Seq<BootstrapEvent>) -> (places: (int, int))
    requires
        has_just_begun(start),
        bootstrap_permits(start, events),
        bootstrap_after(start, events).stream_verified,
    ensures
        0 <= places.0 < places.1 < events.len(),
        events[places.0] matches BootstrapEvent::Read(Some(message)) && (message is Hello
            || message is HelloBack || message is HelloRejected),
        events[places.1] == BootstrapEvent::Followed(StreamTail::End),
    decreases events.len(),
{
    if bootstrap_after(start, events.drop_last()).stream_verified {
        ending_of(start, events.drop_last())
    } else {
        (greeting_of(start, events.drop_last()), events.len() - 1)
    }
}

proof fn commit_of(start: Bootstrap, events: Seq<BootstrapEvent>) -> (places: (int, int, int))
    requires
        has_just_begun(start),
        bootstrap_permits(start, events),
        bootstrap_after(start, events).commit_requested,
    ensures
        introduced_before(events, places.0, places.1, places.2, events.len() as int),
    decreases events.len(),
{
    if bootstrap_after(start, events.drop_last()).commit_requested {
        commit_of(start, events.drop_last())
    } else {
        let (greeting, ending) = ending_of(start, events.drop_last());
        (greeting, ending, events.len() - 1)
    }
}

proof fn acknowledgement_of(
    start: Bootstrap,
    events: Seq<BootstrapEvent>,
    reader: BootstrapReader,
) -> (places: (int, int, int, int))
    requires
        has_just_begun(start),
        bootstrap_permits(start, events),
        reader == BootstrapReader::Reliable ==> bootstrap_after(
            start,
            events,
        ).reliable_acknowledged,
        reader == BootstrapReader::Datagram ==> bootstrap_after(
            start,
            events,
        ).datagram_acknowledged,
    ensures
        introduced_before(events, places.0, places.1, places.2, places.3),
        places.3 < events.len(),
        events[places.3] == BootstrapEvent::Acknowledged(reader),
    decreases events.len(),
{
    let earlier = bootstrap_after(start, events.drop_last());
    if (reader == BootstrapReader::Reliable && earlier.reliable_acknowledged) || (reader
        == BootstrapReader::Datagram && earlier.datagram_acknowledged) {
        acknowledgement_of(start, events.drop_last(), reader)
    } else {
        let (greeting, ending, commit) = commit_of(start, events.drop_last());
        (greeting, ending, commit, events.len() - 1)
    }
}

/// A peer that has to introduce itself is authenticated only after the whole bootstrap, in its
/// order: a greeting, the end of the stream right behind it, the request to acknowledge, the
/// acknowledgement of both readers, and a peer that is still there.
pub proof fn authentication_takes_the_whole_bootstrap(
    start: Bootstrap,
    events: Seq<BootstrapEvent>,
)
    requires
        has_just_begun(start),
        bootstrap_permits(start, events),
        bootstrap_after(start, events).complete,
    ensures
        exists|greeting: int, ending: int, commit: int, reliable: int, datagram: int, opened: int|
            {
                &&& #[trigger] introduced_before(events, greeting, ending, commit, reliable)
                &&& #[trigger] introduced_before(events, greeting, ending, commit, datagram)
                &&& reliable < opened && datagram < opened && opened < events.len()
                &&& events[reliable] == BootstrapEvent::Acknowledged(BootstrapReader::Reliable)
                &&& events[datagram] == BootstrapEvent::Acknowledged(BootstrapReader::Datagram)
                &&& #[trigger] events[opened] == (BootstrapEvent::Opened { peer_closed: false })
            },
    decreases events.len(),
{
    let earlier = events.drop_last();
    if bootstrap_after(start, earlier).complete {
        authentication_takes_the_whole_bootstrap(start, earlier);
        let (greeting, ending, commit, reliable, datagram, opened) = choose|
            greeting: int,
            ending: int,
            commit: int,
            reliable: int,
            datagram: int,
            opened: int,
        |
            {
                &&& #[trigger] introduced_before(earlier, greeting, ending, commit, reliable)
                &&& #[trigger] introduced_before(earlier, greeting, ending, commit, datagram)
                &&& reliable < opened && datagram < opened && opened < earlier.len()
                &&& earlier[reliable] == BootstrapEvent::Acknowledged(BootstrapReader::Reliable)
                &&& earlier[datagram] == BootstrapEvent::Acknowledged(BootstrapReader::Datagram)
                &&& #[trigger] earlier[opened] == (BootstrapEvent::Opened { peer_closed: false })
            };
        assert(introduced_before(events, greeting, ending, commit, reliable));
        assert(introduced_before(events, greeting, ending, commit, datagram));
        assert(events[opened] == earlier[opened]);
    } else {
        let (g1, e1, c1, reliable) = acknowledgement_of(start, earlier, BootstrapReader::Reliable);
        let (g2, e2, c2, datagram) = acknowledgement_of(start, earlier, BootstrapReader::Datagram);
        let opened = events.len() - 1;
        assert(events[opened] == (BootstrapEvent::Opened { peer_closed: false }));
        if c1 <= c2 {
            assert(introduced_before(events, g1, e1, c1, reliable));
            assert(introduced_before(events, g1, e1, c1, datagram));
        } else {
            assert(introduced_before(events, g2, e2, c2, reliable));
            assert(introduced_before(events, g2, e2, c2, datagram));
        }
    }
}

/// A peer that greets, finishes the stream and stays is authenticated, in whichever order the
/// two readers acknowledge; what was read before the greeting and was no message does not matter.
pub proof fn the_whole_bootstrap_authenticates(
    start: Bootstrap,
    greeting: Message,
    first: BootstrapReader,
    second: BootstrapReader,
)
    requires
        has_just_begun(start),
        greeting is Hello || greeting is HelloBack || greeting is HelloRejected,
        first != second,
    ensures
        ({
            let done = start.next(BootstrapEvent::Read(None)).next(
                BootstrapEvent::Read(Some(greeting)),
            ).next(BootstrapEvent::Followed(StreamTail::End)).next(
                BootstrapEvent::CommitRequested,
            ).next(BootstrapEvent::Acknowledged(first)).next(
                BootstrapEvent::Acknowledged(second),
            ).next(BootstrapEvent::Opened { peer_closed: false });
            done.complete && done.role() == StreamRole::Authenticated
        }),
{
}

} // verus!
