//! The local proxy: what it is started with.
//!
//! The local proxy does not read SOCKS5. Whatever its client sends goes to
//! the remote proxy through [`Encryption`](crate::encryption::Encryption),
//! and whatever comes back goes to the client through
//! [`Decryption`](crate::decryption::Decryption).

use vstd::prelude::*;

verus! {

/// The local proxy: the address that it listens on, the address of the
/// remote proxy, and the pre-shared key.
pub struct LocalServer {
    listen: String,
    remote_addr: String,
    key: String,
}

impl LocalServer {
    /// The address that the proxy listens on.
    pub closed spec fn spec_listen(&self) -> Seq<char> {
        self.listen@
    }

    /// The address of the remote proxy.
    pub closed spec fn spec_remote_addr(&self) -> Seq<char> {
        self.remote_addr@
    }

    /// The pre-shared key.
    pub closed spec fn spec_key(&self) -> Seq<char> {
        self.key@
    }

    /// A local proxy with this key and these addresses.
    pub fn new(key: String, listen: String, remote_addr: String) -> (r: LocalServer)
        ensures
            r.spec_key() == key@,
            r.spec_listen() == listen@,
            r.spec_remote_addr() == remote_addr@,
    {
        LocalServer { listen, remote_addr, key }
    }

    /// The address that the proxy listens on.
    pub fn listen(&self) -> (r: &str)
        ensures
            r@ == self.spec_listen(),
    {
        self.listen.as_str()
    }

    /// The address of the remote proxy.
    pub fn remote_addr(&self) -> (r: &str)
        ensures
            r@ == self.spec_remote_addr(),
    {
        self.remote_addr.as_str()
    }

    /// The pre-shared key.
    pub fn key(&self) -> (r: &str)
        ensures
            r@ == self.spec_key(),
    {
        self.key.as_str()
    }
}

} // verus!
