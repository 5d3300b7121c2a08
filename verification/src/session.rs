//! A whole handshake, from the first byte that the client sends to the
//! relay or the close.
//!
//! The rules in [`crate::socks5`] say what one step does. Here the steps are
//! put end to end over the stream of bytes that a client sends, and the
//! outcome is held against what those bytes ask for.

use vstd::prelude::*;

use crate::socks5::{
    dial, greeting, handshake_step, host_target, ipv4_target, ipv6_target, method_reply, positive_reply,
    request_address_type, ActionView, EventView, PhaseView, TargetView,
};

verus! {

/// The target that the bytes after a request's first four name, for an
/// address of type `atyp`: `Some` where the address and the port are there
/// in full.
pub open spec fn address_target(atyp: u8, rest: Seq<u8>) -> Option<TargetView> {
    if atyp == 0x01 {
        if rest.len() >= 6 {
            ipv4_target(rest.subrange(0, 6))
        } else {
            None
        }
    } else if atyp == 0x03 {
        if rest.len() >= 1 && rest.len() >= 3 + rest[0] {
            host_target(rest.subrange(1, 1 + rest[0]), rest.subrange(1 + rest[0], 3 + rest[0]))
        } else {
            None
        }
    } else if atyp == 0x04 {
        if rest.len() >= 18 {
            ipv6_target(rest.subrange(0, 16), rest.subrange(16, 18))
        } else {
            None
        }
    } else {
        None
    }
}

/// The number of bytes that an address of type `atyp` and its port take,
/// where [`address_target`] finds a target.
pub open spec fn address_len(atyp: u8, rest: Seq<u8>) -> nat {
    if atyp == 0x01 {
        6
    } else if atyp == 0x03 {
        3 + rest[0] as nat
    } else {
        18
    }
}

/// The target that a client's bytes ask for: `Some` where they begin with
/// the greeting that is accepted and a `CONNECT` request with an address of
/// one of the three forms, whole.
pub open spec fn requested_target(stream: Seq<u8>) -> Option<TargetView> {
    if stream.len() >= 7 && stream.subrange(0, 3) == greeting() {
        match request_address_type(stream.subrange(3, 7)) {
            Some(atyp) => address_target(atyp, stream.subrange(7, stream.len() as int)),
            None => None,
        }
    } else {
        None
    }
}

/// The number of bytes of a client's stream that make up the greeting and
/// the request, where [`requested_target`] finds a target in it.
pub open spec fn request_len(stream: Seq<u8>) -> nat {
    7 + address_len(stream[6], stream.subrange(7, stream.len() as int))
}

/// What a handshake came to.
pub struct Outcome {
    /// The phase in which it ended.
    pub phase: PhaseView,
    /// What was sent to the client, in order.
    pub sent: Seq<Seq<u8>>,
    /// The targets that were dialed, in order.
    pub dialed: Seq<TargetView>,
    /// The number of bytes that were taken from the client's stream.
    pub taken: nat,
}

/// The number of steps that a session in this phase can still take, at
/// most.
pub open spec fn steps_left(phase: PhaseView) -> nat {
    match phase {
        PhaseView::Accepted => 9,
        PhaseView::Greeting => 8,
        PhaseView::MethodReply => 7,
        PhaseView::Request => 6,
        PhaseView::HostLen => 5,
        PhaseView::HostName(_) => 4,
        PhaseView::Ipv6Addr => 4,
        PhaseView::HostPort(_) => 3,
        PhaseView::Ipv6Port(_) => 3,
        PhaseView::Ipv4 => 3,
        PhaseView::Dial => 2,
        PhaseView::Reply => 1,
        PhaseView::Relay => 0,
        PhaseView::Closed => 0,
    }
}

/// The handshake from `phase` on, where `action` is what it has just asked
/// for, `stream` is what the client has sent and not yet been read, and
/// `reachable` says whether a dial succeeds.
///
/// A read of `n` bytes takes the next `n` bytes of the stream, or fails
/// where fewer are left. A send goes out. A dial succeeds or fails as
/// `reachable` says.
pub open spec fn run(phase: PhaseView, action: ActionView, stream: Seq<u8>, reachable: bool) -> Outcome
    decreases
            (if action is Relay || action is Close {
                0
            } else {
                steps_left(phase) + 1
            }),
{
    match action {
        ActionView::Relay | ActionView::Close => Outcome {
            phase,
            sent: Seq::empty(),
            dialed: Seq::empty(),
            taken: 0,
        },
        ActionView::Read(n) => if n <= stream.len() {
            let next = handshake_step(phase, EventView::Bytes(stream.subrange(0, n as int)));
            let rest = run(next.0, next.1, stream.subrange(n as int, stream.len() as int), reachable);
            Outcome { taken: rest.taken + n as nat, ..rest }
        } else {
            let next = handshake_step(phase, EventView::Failed);
            run(next.0, next.1, stream, reachable)
        },
        ActionView::Send(bytes) => {
            let next = handshake_step(phase, EventView::Sent);
            let rest = run(next.0, next.1, stream, reachable);
            Outcome { sent: seq![bytes] + rest.sent, ..rest }
        },
        ActionView::Connect(target) => {
            let next = handshake_step(
                phase,
                if reachable {
                    EventView::Connected
                } else {
                    EventView::Failed
                },
            );
            let rest = run(next.0, next.1, stream, reachable);
            Outcome { dialed: seq![target] + rest.dialed, ..rest }
        },
    }
}

/// The handshake of a session whose client sends `stream`.
pub open spec fn session(stream: Seq<u8>, reachable: bool) -> Outcome {
    let first = handshake_step(PhaseView::Accepted, EventView::Accepted);
    run(first.0, first.1, stream, reachable)
}

/// `outcome` is what dialing `target` comes to: the target is dialed once;
/// if the dial succeeds the positive reply is sent and the relay begins, and
/// if it fails the session closes with nothing sent. Where there is no
/// target, the session closes with nothing dialed and nothing sent.
pub open spec fn dials(outcome: Outcome, target: Option<TargetView>, reachable: bool) -> bool {
    match target {
        Some(t) => {
            &&& outcome.dialed == seq![t]
            &&& outcome.phase == if reachable {
                PhaseView::Relay
            } else {
                PhaseView::Closed
            }
            &&& outcome.sent == if reachable {
                seq![positive_reply()]
            } else {
                Seq::<Seq<u8>>::empty()
            }
        },
        None => {
            &&& outcome.dialed == Seq::<TargetView>::empty()
            &&& outcome.phase == PhaseView::Closed
            &&& outcome.sent == Seq::<Seq<u8>>::empty()
        },
    }
}

/// From the dial on.
proof fn lemma_run_dial(target: Option<TargetView>, stream: Seq<u8>, reachable: bool)
    ensures
        dials(run(dial(target).0, dial(target).1, stream, reachable), target, reachable),
        run(dial(target).0, dial(target).1, stream, reachable).taken == 0,
{
    reveal_with_fuel(run, 4);
}

/// From the address on, for each of the three forms.
proof fn lemma_run_address(atyp: u8, stream: Seq<u8>, reachable: bool)
    requires
        atyp == 0x01 || atyp == 0x03 || atyp == 0x04,
    ensures
        ({
            let first = handshake_step(
                PhaseView::Request,
                EventView::Bytes(seq![0x05u8, 0x01u8, 0x00u8, atyp]),
            );
            let outcome = run(first.0, first.1, stream, reachable);
            &&& dials(outcome, address_target(atyp, stream), reachable)
            &&& address_target(atyp, stream) is Some ==> outcome.taken == address_len(atyp, stream)
        }),
{
    reveal_with_fuel(run, 2);
    if atyp == 0x01 {
        if stream.len() >= 6 {
            lemma_run_dial(
                ipv4_target(stream.subrange(0, 6)),
                stream.subrange(6, stream.len() as int),
                reachable,
            );
        }
    } else if atyp == 0x04 {
        if stream.len() >= 16 {
            let addr = stream.subrange(0, 16);
            let tail = stream.subrange(16, stream.len() as int);
            if tail.len() >= 2 {
                assert(tail.subrange(0, 2) =~= stream.subrange(16, 18));
                lemma_run_dial(
                    ipv6_target(addr, tail.subrange(0, 2)),
                    tail.subrange(2, tail.len() as int),
                    reachable,
                );
            }
            assert(run(PhaseView::Ipv6Addr, ActionView::Read(16), stream, reachable).taken == run(
                PhaseView::Ipv6Port(addr),
                ActionView::Read(2),
                tail,
                reachable,
            ).taken + 16);
        }
    } else {
        if stream.len() >= 1 {
            let len = stream[0];
            let named = stream.subrange(1, stream.len() as int);
            lemma_run_host(len, named, reachable);
            if named.len() >= len && named.len() - len >= 2 {
                assert(named.subrange(0, len as int) =~= stream.subrange(1, 1 + len));
                assert(named.subrange(len as int, len + 2) =~= stream.subrange(1 + len, 3 + len));
            }
        }
    }
}

/// From the host name on.
proof fn lemma_run_host(len: u8, stream: Seq<u8>, reachable: bool)
    ensures
        ({
            let outcome = run(
                PhaseView::HostName(len),
                ActionView::Read(len as usize),
                stream,
                reachable,
            );
            let target = if stream.len() >= len + 2 {
                host_target(stream.subrange(0, len as int), stream.subrange(len as int, len + 2))
            } else {
                None
            };
            &&& dials(outcome, target, reachable)
            &&& target is Some ==> outcome.taken == len + 2
        }),
{
    reveal_with_fuel(run, 3);
    if stream.len() >= len {
        let host = stream.subrange(0, len as int);
        let tail = stream.subrange(len as int, stream.len() as int);
        if tail.len() >= 2 {
            assert(tail.subrange(0, 2) =~= stream.subrange(len as int, len + 2));
            lemma_run_dial(
                host_target(host, tail.subrange(0, 2)),
                tail.subrange(2, tail.len() as int),
                reachable,
            );
        }
    }
}

/// A session dials what the client's bytes ask for, and nothing else.
///
/// Where the bytes ask for a target, that target is dialed, once, after
/// the method reply has been sent and exactly the bytes of the greeting and
/// the request have been read. If the dial succeeds the positive reply
/// follows and the relay begins; if it fails the session closes and nothing
/// more is sent.
///
/// Where the bytes ask for no target, nothing is dialed and the session
/// closes. Nothing is sent then but the method reply, and that only if the
/// greeting was the one accepted.
pub proof fn lemma_session_dials_what_is_asked(stream: Seq<u8>, reachable: bool)
    ensures
        match requested_target(stream) {
            Some(target) => {
                &&& session(stream, reachable).dialed == seq![target]
                &&& session(stream, reachable).taken == request_len(stream)
                &&& session(stream, reachable).phase == if reachable {
                    PhaseView::Relay
                } else {
                    PhaseView::Closed
                }
                &&& session(stream, reachable).sent == if reachable {
                    seq![method_reply(), positive_reply()]
                } else {
                    seq![method_reply()]
                }
            },
            None => {
                &&& session(stream, reachable).phase == PhaseView::Closed
                &&& session(stream, reachable).dialed == Seq::<TargetView>::empty()
                &&& session(stream, reachable).sent == if stream.len() >= 3 && stream.subrange(0, 3)
                    == greeting() {
                    seq![method_reply()]
                } else {
                    Seq::<Seq<u8>>::empty()
                }
            },
        },
{
    reveal_with_fuel(run, 4);
    if stream.len() >= 3 && stream.subrange(0, 3) == greeting() {
        let after_greeting = stream.subrange(3, stream.len() as int);
        if after_greeting.len() >= 4 {
            let header = after_greeting.subrange(0, 4);
            let rest = after_greeting.subrange(4, after_greeting.len() as int);
            assert(rest =~= stream.subrange(7, stream.len() as int));
            match request_address_type(header) {
                Some(atyp) => {
                    if atyp == 0x01 || atyp == 0x03 || atyp == 0x04 {
                        lemma_run_address(atyp, rest, reachable);
                    } else {
                        let closing = run(
                            PhaseView::Request,
                            ActionView::Read(4),
                            after_greeting,
                            reachable,
                        );
                        assert(closing.sent =~= Seq::<Seq<u8>>::empty());
                        assert(session(stream, reachable).sent =~= seq![method_reply()]);
                    }
                },
                None => {},
            }
        }
    }
}

/// A greeting other than the one accepted ends the session once its three
/// bytes have been read: nothing is sent and nothing is dialed.
pub proof fn lemma_session_refuses_other_greetings(stream: Seq<u8>, reachable: bool)
    requires
        stream.len() >= 3,
        stream.subrange(0, 3) != greeting(),
    ensures
        session(stream, reachable) == (Outcome {
            phase: PhaseView::Closed,
            sent: Seq::empty(),
            dialed: Seq::empty(),
            taken: 3,
        }),
{
    reveal_with_fuel(run, 3);
}

} // verus!
