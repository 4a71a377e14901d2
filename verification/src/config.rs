//! The configuration of the server.

use vstd::prelude::*;
use vstd::string::*;
use crate::text::{decimal, push_decimal};

verus! {

/// Where the server listens, where it stores, and how large an upload may
/// be.
#[derive(Debug, PartialEq, Eq)]
pub struct Config {
    pub host: String,
    pub port: u16,
    pub storage_path: String,
    pub max_file_size: u64,
}

impl Clone for Config {
    fn clone(&self) -> (copy: Self)
        ensures
            copy == *self,
    {
        Config {
            host: self.host.clone(),
            port: self.port,
            storage_path: self.storage_path.clone(),
            max_file_size: self.max_file_size,
        }
    }
}

/// The largest upload that is accepted unless the configuration says
/// otherwise: 100 MiB.
pub const DEFAULT_MAX_FILE_SIZE: u64 = 100 * 1024 * 1024;

/// The port on which the server listens unless the configuration says
/// otherwise.
pub const DEFAULT_PORT: u16 = 3000;

/// The host on which the server listens unless the configuration says
/// otherwise.
pub fn default_host() -> (host: String)
    ensures
        host@ == "127.0.0.1"@,
{
    String::from_str("127.0.0.1")
}

/// The port on which the server listens unless the configuration says
/// otherwise.
pub fn default_port() -> (port: u16)
    ensures
        port == DEFAULT_PORT,
{
    DEFAULT_PORT
}

/// The directory in which the server stores unless the configuration says
/// otherwise.
pub fn default_storage_path() -> (path: String)
    ensures
        path@ == "./storage"@,
{
    String::from_str("./storage")
}

/// The largest upload that is accepted unless the configuration says
/// otherwise.
pub fn default_max_file_size() -> (size: u64)
    ensures
        size == DEFAULT_MAX_FILE_SIZE,
{
    DEFAULT_MAX_FILE_SIZE
}

/// The number that a text stands for under `str::parse::<u16>`, where it
/// stands for one.
pub uninterp spec fn parsed_u16(text: Seq<char>) -> Option<u16>;

/// The number that a text stands for under `str::parse::<u64>`, where it
/// stands for one.
pub uninterp spec fn parsed_u64(text: Seq<char>) -> Option<u64>;

/// Reads a port number.
///
/// Trusted: `str::parse::<u16>` of the standard library, whose result depends
/// on the text alone; a text that it refuses gives `None`.
#[verifier::external_body]
fn parse_u16(text: &str) -> (r: Option<u16>)
    ensures
        r == parsed_u16(text@),
{
    text.parse::<u16>().ok()
}

/// Reads a size in bytes.
///
/// Trusted: `str::parse::<u64>` of the standard library, whose result depends
/// on the text alone; a text that it refuses gives `None`.
#[verifier::external_body]
fn parse_u64(text: &str) -> (r: Option<u64>)
    ensures
        r == parsed_u64(text@),
{
    text.parse::<u64>().ok()
}

impl Config {
    /// The configuration made of the settings that are given, with the
    /// default in place of each one that is not.
    pub fn from_settings(
        host: Option<String>,
        port: Option<u16>,
        storage_path: Option<String>,
        max_file_size: Option<u64>,
    ) -> (config: Config)
        ensures
            config.host@ == (match host {
                Some(text) => text@,
                None => "127.0.0.1"@,
            }),
            config.port == (match port {
                Some(number) => number,
                None => DEFAULT_PORT,
            }),
            config.storage_path@ == (match storage_path {
                Some(text) => text@,
                None => "./storage"@,
            }),
            config.max_file_size == (match max_file_size {
                Some(number) => number,
                None => DEFAULT_MAX_FILE_SIZE,
            }),
    {
        Config {
            host: match host {
                Some(text) => text,
                None => default_host(),
            },
            port: match port {
                Some(number) => number,
                None => default_port(),
            },
            storage_path: match storage_path {
                Some(text) => text,
                None => default_storage_path(),
            },
            max_file_size: match max_file_size {
                Some(number) => number,
                None => default_max_file_size(),
            },
        }
    }

    /// The configuration made of settings as they are written in the
    /// environment: a port or a size that is missing or is no number gives
    /// way to its default.
    pub fn from_texts(
        host: Option<String>,
        port: Option<String>,
        storage_path: Option<String>,
        max_file_size: Option<String>,
    ) -> (config: Config)
        ensures
            config.host@ == (match host {
                Some(text) => text@,
                None => "127.0.0.1"@,
            }),
            config.port == (match port {
                Some(text) => match parsed_u16(text@) {
                    Some(number) => number,
                    None => DEFAULT_PORT,
                },
                None => DEFAULT_PORT,
            }),
            config.storage_path@ == (match storage_path {
                Some(text) => text@,
                None => "./storage"@,
            }),
            config.max_file_size == (match max_file_size {
                Some(text) => match parsed_u64(text@) {
                    Some(number) => number,
                    None => DEFAULT_MAX_FILE_SIZE,
                },
                None => DEFAULT_MAX_FILE_SIZE,
            }),
    {
        let port_number = match &port {
            Some(text) => parse_u16(text.as_str()),
            None => None,
        };
        let size_number = match &max_file_size {
            Some(text) => parse_u64(text.as_str()),
            None => None,
        };
        Config::from_settings(host, port_number, storage_path, size_number)
    }

    /// The address to listen on: the host, a colon and the port in decimal.
    pub fn addr(&self) -> (address: String)
        ensures
            address@ == self.host@ + ":"@ + decimal(self.port as nat),
    {
        let mut address = self.host.clone();
        address.append(":");
        push_decimal(&mut address, self.port as u64);
        address
    }

    /// Whether an upload of `size` bytes is within the limit.
    pub fn accepts(&self, size: u64) -> (ok: bool)
        ensures
            ok == (size <= self.max_file_size),
    {
        size <= self.max_file_size
    }
}

} // verus!
