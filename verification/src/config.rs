//! What a proxy is started with, and the check that it can start.

use vstd::prelude::*;
use vstd::string::StringExecFns;
use vstd::string::StringSliceAdditionalSpecFns;

use crate::wire::KEY_LEN;

verus! {

/// What a proxy is started with.
pub struct Config<'a> {
    /// `"local"` or `"remote"`.
    pub mode: &'a str,
    /// The address to listen on.
    pub listen: &'a str,
    /// The address of the remote proxy; empty for a remote proxy.
    pub remote_addr: &'a str,
    /// The pre-shared key.
    pub key: &'a str,
}

/// Why a proxy cannot start.
#[derive(Debug, PartialEq, Eq)]
pub enum ConfigError {
    /// The key is not as long as an AES-256 key.
    KeyLength,
    /// The address to listen on does not resolve; the text says why.
    Listen(String),
    /// The address of the remote proxy does not resolve; the text says why.
    RemoteAddr(String),
}

impl ConfigError {
    /// The line that tells the user what is wrong.
    pub fn message(&self) -> (text: String)
        ensures
            text@ == match self {
                ConfigError::KeyLength => "`key` len != 32"@,
                ConfigError::Listen(why) => "`listen` parameter error "@ + why@,
                ConfigError::RemoteAddr(why) => "`remote-addr` parameter error "@ + why@,
            },
    {
        match self {
            ConfigError::KeyLength => String::from_str("`key` len != 32"),
            ConfigError::Listen(why) => String::from_str("`listen` parameter error ").concat(
                why.as_str(),
            ),
            ConfigError::RemoteAddr(why) => String::from_str(
                "`remote-addr` parameter error ",
            ).concat(why.as_str()),
        }
    }
}

impl<'a> Config<'a> {
    /// The configuration of a local proxy.
    pub fn new_local_server(listen: &'a str, remote_addr: &'a str, key: &'a str) -> (r: Config<'a>)
        ensures
            r.mode@ == "local"@,
            r.listen@ == listen@,
            r.remote_addr@ == remote_addr@,
            r.key@ == key@,
    {
        Config { mode: "local", listen, remote_addr, key }
    }

    /// The configuration of a remote proxy.
    pub fn new_remote_server(listen: &'a str, key: &'a str) -> (r: Config<'a>)
        ensures
            r.mode@ == "remote"@,
            r.listen@ == listen@,
            r.remote_addr@ == ""@,
            r.key@ == key@,
    {
        Config { mode: "remote", listen, remote_addr: "", key }
    }

    /// The configuration is that of a local proxy.
    pub open spec fn is_local(&self) -> bool {
        self.mode@ == "local"@
    }

    /// The configuration is that of a remote proxy.
    pub open spec fn is_remote(&self) -> bool {
        self.mode@ == "remote"@
    }

    /// The key is as long as an AES-256 key, counted in bytes.
    pub open spec fn key_fits(&self) -> bool {
        self.key.spec_bytes().len() == KEY_LEN
    }

    /// Checks that a proxy can start with this configuration.
    ///
    /// `listen` and `remote_addr` say whether the two addresses resolve, and
    /// if not, why not; the second is looked at for a local proxy only. The
    /// key is checked first, then the address to listen on, then the address
    /// of the remote proxy.
    pub fn verification(&self, listen: Result<(), String>, remote_addr: Result<(), String>) -> (r:
        Result<(), ConfigError>)
        requires
            self.is_local() || self.is_remote(),
        ensures
            match r {
                Ok(_) => {
                    &&& self.key_fits()
                    &&& listen is Ok
                    &&& self.is_local() ==> remote_addr is Ok
                },
                Err(ConfigError::KeyLength) => !self.key_fits(),
                Err(ConfigError::Listen(why)) => {
                    &&& self.key_fits()
                    &&& listen matches Err(text)
                    &&& why@ == text@
                },
                Err(ConfigError::RemoteAddr(why)) => {
                    &&& self.key_fits()
                    &&& listen is Ok
                    &&& self.is_local()
                    &&& remote_addr matches Err(text)
                    &&& why@ == text@
                },
            },
    {
        if self.key.as_bytes().len() != KEY_LEN {
            return Err(ConfigError::KeyLength);
        }
        if let Err(why) = listen {
            return Err(ConfigError::Listen(why));
        }
        if self.mode.to_owned() == String::from_str("local") {
            if let Err(why) = remote_addr {
                return Err(ConfigError::RemoteAddr(why));
            }
        }
        Ok(())
    }
}

} // verus!
