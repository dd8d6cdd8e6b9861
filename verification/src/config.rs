//! Application configuration values.
//!
//! Loading the values from files or the environment happens outside the
//! library; the shapes and the address formatting live here.

use vstd::prelude::*;
use crate::text::{dec_digits, push_bytes, push_u64};
use crate::strconv::{ascii_bytes, bytes_to_string};

verus! {

#[derive(Clone, Debug)]
pub struct DatabaseConfig {
    pub sqlite_path: String,
    pub redis_url: String,
}

#[derive(Clone, Debug)]
pub struct ServerConfig {
    pub host: String,
    pub port: u16,
}

#[derive(Clone, Debug)]
pub struct TradingConfig {
    pub default_symbol: String,
    pub macd_short: usize,
    pub macd_long: usize,
    pub macd_signal: usize,
}

#[derive(Clone, Debug)]
pub struct AppConfig {
    pub name: String,
    pub version: String,
    pub environment: String,
    pub database: DatabaseConfig,
    pub server: ServerConfig,
    pub trading: TradingConfig,
}

/// The bytes of the server address: host, a colon, the port digits.
pub open spec fn server_address_bytes(host: Seq<char>, port: u16) -> Seq<u8> {
    vstd::utf8::encode_utf8(host) + seq![58u8] + dec_digits(port as nat)
}

impl AppConfig {
    /// The `host:port` text the server binds; exact for ASCII hosts.
    pub fn get_server_address(&self) -> (r: String)
        ensures
            ({
                let b = server_address_bytes(self.server.host@, self.server.port);
                ascii_bytes(b) ==> (r@.len() == b.len() && forall|i: int|
                    0 <= i < b.len() ==> (#[trigger] r@[i]) == b[i] as char)
            }),
    {
        let mut out: Vec<u8> = Vec::new();
        let hb = crate::providers::string_bytes(&self.server.host);
        push_bytes(&mut out, hb.as_slice());
        out.push(58);
        push_u64(&mut out, self.server.port as u64);
        assert(out@ =~= server_address_bytes(self.server.host@, self.server.port));
        bytes_to_string(&out)
    }
}

} // verus!
