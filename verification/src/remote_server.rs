//! The remote proxy: what it is started with, and the SOCKS5 handshake that
//! it runs with every client.

use vstd::prelude::*;

use crate::config::{Config, ConfigError};
use crate::socks5::{
    dial, greeting, handshake_step, host_and_port, host_target, ipv4_target, ipv6_target,
    method_reply, positive_reply, request_address_type, utf8_text, Action, Event, Phase, Target,
};
use crate::wire::{get_u16, get_u8};

verus! {

/// The remote proxy: the address that it listens on and the pre-shared key.
pub struct RemoteServer {
    listen: String,
    key: String,
}

impl RemoteServer {
    /// The address that the proxy listens on.
    pub closed spec fn spec_listen(&self) -> Seq<char> {
        self.listen@
    }

    /// The pre-shared key.
    pub closed spec fn spec_key(&self) -> Seq<char> {
        self.key@
    }

    /// A remote proxy with the address and the key of `config`, if `config`
    /// passes [`Config::verification`]; the error of that check otherwise.
    pub fn new(config: Config, listen: Result<(), String>, remote_addr: Result<(), String>) -> (r:
        Result<RemoteServer, ConfigError>)
        requires
            config.is_local() || config.is_remote(),
        ensures
            match r {
                Ok(server) => {
                    &&& config.key_fits()
                    &&& listen is Ok
                    &&& config.is_local() ==> remote_addr is Ok
                    &&& server.spec_listen() == config.listen@
                    &&& server.spec_key() == config.key@
                },
                Err(ConfigError::KeyLength) => !config.key_fits(),
                Err(ConfigError::Listen(why)) => {
                    &&& config.key_fits()
                    &&& listen matches Err(text)
                    &&& why@ == text@
                },
                Err(ConfigError::RemoteAddr(why)) => {
                    &&& config.key_fits()
                    &&& listen is Ok
                    &&& config.is_local()
                    &&& remote_addr matches Err(text)
                    &&& why@ == text@
                },
            },
    {
        match config.verification(listen, remote_addr) {
            Err(e) => Err(e),
            Ok(()) => Ok(
                RemoteServer { listen: config.listen.to_owned(), key: config.key.to_owned() },
            ),
        }
    }

    /// The address that the proxy listens on.
    pub fn listen(&self) -> (r: &str)
        ensures
            r@ == self.spec_listen(),
    {
        self.listen.as_str()
    }

    /// The pre-shared key.
    pub fn key(&self) -> (r: &str)
        ensures
            r@ == self.spec_key(),
    {
        self.key.as_str()
    }

    /// The target that the bytes of a host name and the two bytes of a port
    /// name: the name as text, a colon, and the port in decimal.
    ///
    /// `None` where the name is no valid UTF-8, or the port is not two bytes.
    pub fn socks5_host_connect(host: &[u8], port: &[u8]) -> (r: Option<Target>)
        ensures
            match r {
                Some(target) => host_target(host@, port@) == Some(target@),
                None => host_target(host@, port@) is None,
            },
    {
        if port.len() != 2 {
            return None;
        }
        let port: u16 = get_u16(port);
        match utf8_text(host) {
            None => None,
            Some(name) => Some(Target::Domain(host_and_port(name, port))),
        }
    }

    /// The target that the four bytes of an IPv4 address and the two bytes of
    /// a port name. `None` where `buf` is not six bytes.
    pub fn socks5_ipv4_connect(buf: &[u8]) -> (r: Option<Target>)
        ensures
            match r {
                Some(target) => ipv4_target(buf@) == Some(target@),
                None => ipv4_target(buf@) is None,
            },
    {
        if buf.len() != 6 {
            return None;
        }
        let port: u16 = get_u16(&buf[4..6]);
        let addr: [u8; 4] = [buf[0], buf[1], buf[2], buf[3]];
        assert(addr@ =~= buf@.subrange(0, 4));
        Some(Target::V4(addr, port))
    }

    /// The target that the sixteen bytes of an IPv6 address and the two bytes
    /// of a port name. `None` where the lengths are others.
    pub fn socks5_ipv6_connect(addr: &[u8], port: &[u8]) -> (r: Option<Target>)
        ensures
            match r {
                Some(target) => ipv6_target(addr@, port@) == Some(target@),
                None => ipv6_target(addr@, port@) is None,
            },
    {
        if addr.len() != 16 || port.len() != 2 {
            return None;
        }
        let port: u16 = get_u16(port);
        let ip: [u8; 16] = [
            addr[0],
            addr[1],
            addr[2],
            addr[3],
            addr[4],
            addr[5],
            addr[6],
            addr[7],
            addr[8],
            addr[9],
            addr[10],
            addr[11],
            addr[12],
            addr[13],
            addr[14],
            addr[15],
        ];
        assert(ip@ =~= addr@);
        Some(Target::V6(ip, port))
    }

    /// Closes the session.
    fn close() -> (r: (Phase, Action))
        ensures
            r.0@ == crate::socks5::PhaseView::Closed,
            r.1@ == crate::socks5::ActionView::Close,
    {
        (Phase::Closed, Action::Close)
    }

    /// Asks for the target to be connected, or closes the session where
    /// there is none.
    fn connect(target: Option<Target>) -> (r: (Phase, Action))
        ensures
            (r.0@, r.1@) == dial(
                match target {
                    Some(t) => Some(t@),
                    None => None,
                },
            ),
    {
        match target {
            Some(t) => (Phase::Dial, Action::Connect(t)),
            None => Self::close(),
        }
    }

    /// One step of the handshake with a client: given the phase that the
    /// session is in and what has happened, the phase that follows and what
    /// to do next.
    ///
    /// A session starts in `Phase::Accepted` with `Event::Accepted`. The
    /// caller carries out each action and comes back with its outcome, until
    /// the action is `Relay` or `Close`.
    pub fn client_socks5_handshake(phase: Phase, event: Event) -> (r: (Phase, Action))
        ensures
            (r.0@, r.1@) == handshake_step(phase@, event@),
    {
        match phase {
            Phase::Accepted => match event {
                Event::Accepted => (Phase::Greeting, Action::Read(3)),
                _ => Self::close(),
            },
            Phase::Greeting => match event {
                Event::Bytes(data) => {
                    if data.len() == 3 && data[0] == 0x05 && data[1] == 0x01 && data[2] == 0x00 {
                        assert(data@ =~= greeting());
                        let reply: Vec<u8> = vec![0x05u8, 0x00u8];
                        (Phase::MethodReply, Action::Send(reply))
                    } else {
                        Self::close()
                    }
                },
                _ => Self::close(),
            },
            Phase::MethodReply => match event {
                Event::Sent => (Phase::Request, Action::Read(4)),
                _ => Self::close(),
            },
            Phase::Request => match event {
                Event::Bytes(data) => {
                    if data.len() != 4 || data[0] != 0x05 || data[1] != 0x01 || data[2] != 0x00 {
                        Self::close()
                    } else if data[3] == 0x03 {
                        (Phase::HostLen, Action::Read(1))
                    } else if data[3] == 0x01 {
                        (Phase::Ipv4, Action::Read(6))
                    } else if data[3] == 0x04 {
                        (Phase::Ipv6Addr, Action::Read(16))
                    } else {
                        Self::close()
                    }
                },
                _ => Self::close(),
            },
            Phase::Ipv4 => match event {
                Event::Bytes(data) => Self::connect(Self::socks5_ipv4_connect(data.as_slice())),
                _ => Self::close(),
            },
            Phase::Ipv6Addr => match event {
                Event::Bytes(data) => {
                    if data.len() == 16 {
                        let addr: [u8; 16] = [
                            data[0],
                            data[1],
                            data[2],
                            data[3],
                            data[4],
                            data[5],
                            data[6],
                            data[7],
                            data[8],
                            data[9],
                            data[10],
                            data[11],
                            data[12],
                            data[13],
                            data[14],
                            data[15],
                        ];
                        assert(addr@ =~= data@);
                        (Phase::Ipv6Port(addr), Action::Read(2))
                    } else {
                        Self::close()
                    }
                },
                _ => Self::close(),
            },
            Phase::Ipv6Port(addr) => match event {
                Event::Bytes(data) => Self::connect(
                    Self::socks5_ipv6_connect(addr.as_slice(), data.as_slice()),
                ),
                _ => Self::close(),
            },
            Phase::HostLen => match event {
                Event::Bytes(data) => {
                    if data.len() == 1 {
                        let host_len: u8 = get_u8(data.as_slice());
                        (Phase::HostName(host_len), Action::Read(host_len as usize))
                    } else {
                        Self::close()
                    }
                },
                _ => Self::close(),
            },
            Phase::HostName(host_len) => match event {
                Event::Bytes(data) => {
                    if data.len() == host_len as usize {
                        (Phase::HostPort(data), Action::Read(2))
                    } else {
                        Self::close()
                    }
                },
                _ => Self::close(),
            },
            Phase::HostPort(host) => match event {
                Event::Bytes(data) => Self::connect(
                    Self::socks5_host_connect(host.as_slice(), data.as_slice()),
                ),
                _ => Self::close(),
            },
            Phase::Dial => match event {
                Event::Connected => {
                    let reply: Vec<u8> = vec![
                        0x05u8,
                        0x00u8,
                        0x00u8,
                        0x01u8,
                        0x00u8,
                        0x00u8,
                        0x00u8,
                        0x00u8,
                        0x00u8,
                        0x00u8,
                    ];
                    (Phase::Reply, Action::Send(reply))
                },
                _ => Self::close(),
            },
            Phase::Reply => match event {
                Event::Sent => (Phase::Relay, Action::Relay),
                _ => Self::close(),
            },
            Phase::Relay => match event {
                Event::Failed => Self::close(),
                _ => (Phase::Relay, Action::Relay),
            },
            Phase::Closed => Self::close(),
        }
    }
}

} // verus!
