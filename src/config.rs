//! Settings of the process: where the device and the HTTP surface listen,
//! and how logs are kept.

use vstd::prelude::*;
use crate::codec::{format_padded, joined_text, radix_digits};

verus! {

/// Logging settings.
#[derive(Debug, PartialEq)]
pub struct LogConfig {
    /// Log level (trace, debug, info, warn, error)
    pub level: String,
    /// Directory of the log files
    pub directory: String,
    /// Number of rotated log files kept
    pub max_log_files: usize,
}

/// Where the device listens.
#[derive(Debug, PartialEq)]
pub struct StoveConfig {
    pub ip: String,
    pub port: u16,
}

/// Where the HTTP surface listens.
#[derive(Debug, PartialEq)]
pub struct HttpApiConfig {
    pub ip: String,
    pub port: u16,
}

/// All settings.
#[derive(Debug, PartialEq)]
pub struct AppConfig {
    pub stove: StoveConfig,
    pub http_api: HttpApiConfig,
    pub log: LogConfig,
}

/// `host:port`.
pub open spec fn socket_address(ip: Seq<char>, port: u16) -> Seq<char> {
    ip + seq![':'] + radix_digits(port as nat, 10)
}

/// The address text `ip:port` for a host and a port.
pub fn address_of(ip: &String, port: u16) -> (r: String)
    ensures
        r@ == socket_address(ip@, port),
{
    let mut r = joined_text(ip.as_str(), ":");
    let digits = format_padded(port as u64, 10, 1);
    proof {
        reveal_strlit(":");
        crate::codec::lemma_radix_digits_value(port as nat, 10);
    }
    r.append(digits.as_str());
    assert(r@ =~= socket_address(ip@, port));
    r
}

impl AppConfig {
    /// The address of the device.
    pub fn stove_address(&self) -> (r: String)
        ensures
            r@ == socket_address(self.stove.ip@, self.stove.port),
    {
        address_of(&self.stove.ip, self.stove.port)
    }

    /// The address of the HTTP surface.
    pub fn http_address(&self) -> (r: String)
        ensures
            r@ == socket_address(self.http_api.ip@, self.http_api.port),
    {
        address_of(&self.http_api.ip, self.http_api.port)
    }
}

} // verus!
