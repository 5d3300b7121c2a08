//! The SOCKS5 handshake as the remote proxy runs it: method negotiation
//! with "no authentication" only, and the `CONNECT` command only.
//!
//! The handshake is a machine. It is handed what happened (bytes arrived, a
//! write went out, a dial succeeded) and answers with what to do next. This
//! file holds its states, its events, its actions and its rules; the
//! functions that carry the rules out are those of
//! [`RemoteServer`](crate::remote_server::RemoteServer).

use vstd::prelude::*;
use vstd::utf8::{decode_utf8, valid_utf8};

use crate::wire::u16_from_be;

verus! {

/// Where the client asks to be connected.
#[derive(Debug, PartialEq, Eq)]
pub enum Target {
    /// An IPv4 address and a port.
    V4([u8; 4], u16),
    /// An IPv6 address and a port.
    V6([u8; 16], u16),
    /// A host name and a port, written `host:port`.
    Domain(String),
}

/// A [`Target`] as contracts see it.
pub enum TargetView {
    V4(Seq<u8>, u16),
    V6(Seq<u8>, u16),
    Domain(Seq<char>),
}

impl View for Target {
    type V = TargetView;

    open spec fn view(&self) -> TargetView {
        match self {
            Target::V4(addr, port) => TargetView::V4(addr@, *port),
            Target::V6(addr, port) => TargetView::V6(addr@, *port),
            Target::Domain(name) => TargetView::Domain(name@),
        }
    }
}

/// What the handshake is waiting for.
///
/// A session is *accepted* until the greeting has been answered (`Accepted`,
/// `Greeting`, `MethodReply`), then *methoded* until the target is open
/// (`Request` to `Dial`), then *dialed* until the client has been told so
/// (`Reply`), then in `Relay`. `Closed` is the end of every session.
#[derive(Debug, PartialEq, Eq)]
pub enum Phase {
    /// The connection was accepted; nothing has been asked for yet.
    Accepted,
    /// For the three bytes of the greeting.
    Greeting,
    /// For the method reply to have gone out.
    MethodReply,
    /// For the four bytes that begin the request.
    Request,
    /// For the four bytes of an IPv4 address and the two of its port.
    Ipv4,
    /// For the sixteen bytes of an IPv6 address.
    Ipv6Addr,
    /// For the two bytes of the port that follows this IPv6 address.
    Ipv6Port([u8; 16]),
    /// For the byte that holds the length of a host name.
    HostLen,
    /// For a host name of this many bytes.
    HostName(u8),
    /// For the two bytes of the port that follows this host name.
    HostPort(Vec<u8>),
    /// For the target to be connected.
    Dial,
    /// For the positive reply to have gone out.
    Reply,
    /// The handshake is over and bytes are relayed.
    Relay,
    /// The session is over.
    Closed,
}

/// A [`Phase`] as contracts see it.
pub enum PhaseView {
    Accepted,
    Greeting,
    MethodReply,
    Request,
    Ipv4,
    Ipv6Addr,
    Ipv6Port(Seq<u8>),
    HostLen,
    HostName(u8),
    HostPort(Seq<u8>),
    Dial,
    Reply,
    Relay,
    Closed,
}

impl View for Phase {
    type V = PhaseView;

    open spec fn view(&self) -> PhaseView {
        match self {
            Phase::Accepted => PhaseView::Accepted,
            Phase::Greeting => PhaseView::Greeting,
            Phase::MethodReply => PhaseView::MethodReply,
            Phase::Request => PhaseView::Request,
            Phase::Ipv4 => PhaseView::Ipv4,
            Phase::Ipv6Addr => PhaseView::Ipv6Addr,
            Phase::Ipv6Port(addr) => PhaseView::Ipv6Port(addr@),
            Phase::HostLen => PhaseView::HostLen,
            Phase::HostName(len) => PhaseView::HostName(*len),
            Phase::HostPort(host) => PhaseView::HostPort(host@),
            Phase::Dial => PhaseView::Dial,
            Phase::Reply => PhaseView::Reply,
            Phase::Relay => PhaseView::Relay,
            Phase::Closed => PhaseView::Closed,
        }
    }
}

/// What happened since the handshake last asked for something.
#[derive(Debug, PartialEq, Eq)]
pub enum Event {
    /// A connection was accepted.
    Accepted,
    /// The exact read that was asked for ended, with these bytes.
    Bytes(Vec<u8>),
    /// The bytes that were to be sent have gone out.
    Sent,
    /// The target is connected.
    Connected,
    /// What was asked for failed, or the stream ended.
    Failed,
}

/// An [`Event`] as contracts see it.
pub enum EventView {
    Accepted,
    Bytes(Seq<u8>),
    Sent,
    Connected,
    Failed,
}

impl View for Event {
    type V = EventView;

    open spec fn view(&self) -> EventView {
        match self {
            Event::Accepted => EventView::Accepted,
            Event::Bytes(bytes) => EventView::Bytes(bytes@),
            Event::Sent => EventView::Sent,
            Event::Connected => EventView::Connected,
            Event::Failed => EventView::Failed,
        }
    }
}

/// What the handshake asks for next.
#[derive(Debug, PartialEq, Eq)]
pub enum Action {
    /// Read exactly this many bytes from the client, through the codec, and
    /// come back with them.
    Read(usize),
    /// Send these bytes to the client, through the codec, and come back.
    Send(Vec<u8>),
    /// Connect to this target and come back.
    Connect(Target),
    /// Relay bytes between the client and the target.
    Relay,
    /// Close the session.
    Close,
}

/// An [`Action`] as contracts see it.
pub enum ActionView {
    Read(usize),
    Send(Seq<u8>),
    Connect(TargetView),
    Relay,
    Close,
}

impl View for Action {
    type V = ActionView;

    open spec fn view(&self) -> ActionView {
        match self {
            Action::Read(n) => ActionView::Read(*n),
            Action::Send(bytes) => ActionView::Send(bytes@),
            Action::Connect(target) => ActionView::Connect(target@),
            Action::Relay => ActionView::Relay,
            Action::Close => ActionView::Close,
        }
    }
}

/// The greeting that is accepted: version 5, one method, "no
/// authentication".
pub open spec fn greeting() -> Seq<u8> {
    seq![0x05u8, 0x01u8, 0x00u8]
}

/// The answer to the greeting: version 5, method "no authentication".
pub open spec fn method_reply() -> Seq<u8> {
    seq![0x05u8, 0x00u8]
}

/// The positive reply: version 5, success, and the IPv4 address 0.0.0.0
/// with port 0 as the bound address.
pub open spec fn positive_reply() -> Seq<u8> {
    seq![0x05u8, 0x00u8, 0x00u8, 0x01u8, 0x00u8, 0x00u8, 0x00u8, 0x00u8, 0x00u8, 0x00u8]
}

/// The address type that a request names: `Some` where the four bytes are
/// version 5, the command `CONNECT`, the reserved zero and a type.
pub open spec fn request_address_type(bytes: Seq<u8>) -> Option<u8> {
    if bytes.len() == 4 && bytes[0] == 0x05 && bytes[1] == 0x01 && bytes[2] == 0x00 {
        Some(bytes[3])
    } else {
        None
    }
}

/// The decimal digit for a number below ten.
pub open spec fn digit(d: nat) -> char {
    ('0' as u8 + d) as char
}

/// A number written in decimal.
pub open spec fn decimal(n: nat) -> Seq<char>
    decreases n,
{
    if n < 10 {
        seq![digit(n)]
    } else {
        decimal(n / 10).push(digit(n % 10))
    }
}

/// The target that four address bytes and two port bytes name.
pub open spec fn ipv4_target(bytes: Seq<u8>) -> Option<TargetView> {
    if bytes.len() == 6 {
        Some(TargetView::V4(bytes.subrange(0, 4), u16_from_be(bytes.subrange(4, 6))))
    } else {
        None
    }
}

/// The target that sixteen address bytes and two port bytes name.
pub open spec fn ipv6_target(addr: Seq<u8>, port: Seq<u8>) -> Option<TargetView> {
    if addr.len() == 16 && port.len() == 2 {
        Some(TargetView::V6(addr, u16_from_be(port)))
    } else {
        None
    }
}

/// The target that the bytes of a host name and two port bytes name: the
/// name as text, a colon, and the port in decimal. `None` where the name is
/// no valid UTF-8.
pub open spec fn host_target(host: Seq<u8>, port: Seq<u8>) -> Option<TargetView> {
    if port.len() == 2 && valid_utf8(host) {
        Some(
            TargetView::Domain(
                decode_utf8(host) + seq![':'] + decimal(u16_from_be(port) as nat),
            ),
        )
    } else {
        None
    }
}

/// What to do, and what to wait for then, once `target` has been worked
/// out, or could not be.
pub open spec fn dial(target: Option<TargetView>) -> (PhaseView, ActionView) {
    match target {
        Some(t) => (PhaseView::Dial, ActionView::Connect(t)),
        None => (PhaseView::Closed, ActionView::Close),
    }
}

/// The rules of the handshake: the phase that follows and the action to
/// take, for every phase and every event.
///
/// Whatever the rules below do not name closes the session: a failure, an
/// event that the phase was not waiting for, bytes of another length than
/// was asked for, a greeting or a request that is not the one accepted.
pub open spec fn handshake_step(phase: PhaseView, event: EventView) -> (PhaseView, ActionView) {
    match (phase, event) {
        (PhaseView::Accepted, EventView::Accepted) => (PhaseView::Greeting, ActionView::Read(3)),
        (PhaseView::Greeting, EventView::Bytes(bytes)) => if bytes == greeting() {
            (PhaseView::MethodReply, ActionView::Send(method_reply()))
        } else {
            (PhaseView::Closed, ActionView::Close)
        },
        (PhaseView::MethodReply, EventView::Sent) => (PhaseView::Request, ActionView::Read(4)),
        (PhaseView::Request, EventView::Bytes(bytes)) => match request_address_type(bytes) {
            Some(0x01u8) => (PhaseView::Ipv4, ActionView::Read(6)),
            Some(0x03u8) => (PhaseView::HostLen, ActionView::Read(1)),
            Some(0x04u8) => (PhaseView::Ipv6Addr, ActionView::Read(16)),
            _ => (PhaseView::Closed, ActionView::Close),
        },
        (PhaseView::Ipv4, EventView::Bytes(bytes)) => dial(ipv4_target(bytes)),
        (PhaseView::Ipv6Addr, EventView::Bytes(bytes)) => if bytes.len() == 16 {
            (PhaseView::Ipv6Port(bytes), ActionView::Read(2))
        } else {
            (PhaseView::Closed, ActionView::Close)
        },
        (PhaseView::Ipv6Port(addr), EventView::Bytes(bytes)) => dial(ipv6_target(addr, bytes)),
        (PhaseView::HostLen, EventView::Bytes(bytes)) => if bytes.len() == 1 {
            (PhaseView::HostName(bytes[0]), ActionView::Read(bytes[0] as usize))
        } else {
            (PhaseView::Closed, ActionView::Close)
        },
        (PhaseView::HostName(len), EventView::Bytes(bytes)) => if bytes.len() == len {
            (PhaseView::HostPort(bytes), ActionView::Read(2))
        } else {
            (PhaseView::Closed, ActionView::Close)
        },
        (PhaseView::HostPort(host), EventView::Bytes(bytes)) => dial(host_target(host, bytes)),
        (PhaseView::Dial, EventView::Connected) => (
            PhaseView::Reply,
            ActionView::Send(positive_reply()),
        ),
        (PhaseView::Reply, EventView::Sent) => (PhaseView::Relay, ActionView::Relay),
        (PhaseView::Relay, EventView::Failed) => (PhaseView::Closed, ActionView::Close),
        (PhaseView::Relay, _) => (PhaseView::Relay, ActionView::Relay),
        _ => (PhaseView::Closed, ActionView::Close),
    }
}

/// Once closed, a session stays closed.
pub proof fn lemma_closed_is_final(event: EventView)
    ensures
        handshake_step(PhaseView::Closed, event) == (PhaseView::Closed, ActionView::Close),
{
}

/// A failure closes the session, whatever the phase.
pub proof fn lemma_failure_closes(phase: PhaseView)
    ensures
        handshake_step(phase, EventView::Failed) == (PhaseView::Closed, ActionView::Close),
{
}

/// A greeting other than the one accepted closes the session, and nothing
/// is sent.
pub proof fn lemma_greeting_mismatch_closes(bytes: Seq<u8>)
    requires
        bytes != greeting(),
    ensures
        handshake_step(PhaseView::Greeting, EventView::Bytes(bytes)) == (
            PhaseView::Closed,
            ActionView::Close,
        ),
{
}

/// Nothing but the two replies is ever sent: the method reply, in answer to
/// the greeting that is accepted, and the positive reply, once the target
/// is connected. No reply tells the client of an error.
pub proof fn lemma_only_replies_are_sent(phase: PhaseView, event: EventView)
    ensures
        handshake_step(phase, event).1 matches ActionView::Send(bytes) ==> {
            ||| phase == PhaseView::Greeting && event == EventView::Bytes(greeting()) && bytes
                == method_reply()
            ||| phase == PhaseView::Dial && event == EventView::Connected && bytes
                == positive_reply()
        },
{
}

/// The relay begins only when the positive reply has gone out, and a target
/// is dialed only from a request that names it.
pub proof fn lemma_order_of_phases(phase: PhaseView, event: EventView)
    ensures
        handshake_step(phase, event).0 == PhaseView::Relay ==> {
            ||| phase == PhaseView::Reply && event == EventView::Sent
            ||| phase == PhaseView::Relay && event != EventView::Failed
        },
        handshake_step(phase, event).0 == PhaseView::Reply ==> phase == PhaseView::Dial && event
            == EventView::Connected,
        handshake_step(phase, event).0 == PhaseView::Dial ==> (handshake_step(phase, event).1
            matches ActionView::Connect(target) && match (phase, event) {
            (PhaseView::Ipv4, EventView::Bytes(bytes)) => ipv4_target(bytes) == Some(target),
            (PhaseView::Ipv6Port(addr), EventView::Bytes(bytes)) => ipv6_target(addr, bytes)
                == Some(target),
            (PhaseView::HostPort(host), EventView::Bytes(bytes)) => host_target(host, bytes)
                == Some(target),
            _ => false,
        }),
{
}

/// `std::str::from_utf8`: the text that the bytes encode in UTF-8, or `None`
/// where they are no valid UTF-8.
#[verifier::external_body]
pub(crate) fn utf8_text(bytes: &[u8]) -> (r: Option<&str>)
    ensures
        match r {
            Some(text) => valid_utf8(bytes@) && text@ == decode_utf8(bytes@),
            None => !valid_utf8(bytes@),
        },
{
    std::str::from_utf8(bytes).ok()
}

/// `format!` with `"{}:{}"`, a text and a port: the text, a colon, and the
/// port in decimal.
#[verifier::external_body]
pub(crate) fn host_and_port(host: &str, port: u16) -> (r: String)
    ensures
        r@ == host@ + seq![':'] + decimal(port as nat),
{
    format!("{}:{}", host, port)
}

} // verus!
