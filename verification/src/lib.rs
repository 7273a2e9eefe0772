//! An authoritative DNS name server core: wire-format encoding and decoding of DNS
//! messages, resource record handling, and the decisions the servers make about
//! each query.

pub mod bytes;
pub mod cert_reloader;
pub mod config;
pub mod csp;
pub mod datastore;
pub mod db;
pub mod enums;
pub mod error;
pub mod external;
pub mod header;
pub mod ip_address;
pub mod names;
pub mod packet_dumper;
pub mod pattern;
pub mod question;
pub mod reply;
pub mod resourcerecord;
pub mod servers;
pub mod text;
pub mod validators;
pub mod zonedata;

use vstd::prelude::*;

verus! {

/// Internal limit of in-flight requests
pub const MAX_IN_FLIGHT: usize = 512;

/// The size of a DNS request header
pub const HEADER_BYTES: usize = 12;

/// The default "cancel a server response" timeout
pub const REPLY_TIMEOUT_MS: u64 = 1000;

/// The maximum size of a UDP packet <https://dnsflagday.net/2020/#dns-flag-day-2020>
pub const UDP_BUFFER_SIZE: usize = 1232;

/// The name of the web session cookie
pub const COOKIE_NAME: &'static str = "goatns_session";

} // verus!
