//! Configuration records and command-line arguments.

use vstd::prelude::*;

verus! {

/// The configuration file: server, backend account, playlist options and
/// channel-name rules.
#[derive(Clone)]
pub struct YamlConfig {
    pub server: ServerConfig,
    pub iptv: IptvConfig,
    pub m3u8: M3u8Config,
    /// Pairs of (cleaned name, published name); each cleaned name once.
    pub name_mapping: Option<Vec<(String, String)>>,
    pub name_clean: Vec<String>,
}

/// Where and how the HTTP server listens.
#[derive(Clone)]
pub struct ServerConfig {
    pub listen: String,
    pub workers: Option<usize>,
    pub timeout: Option<u64>,
    pub log_level: Option<String>,
}

/// The account on the backend and the device it poses as.
#[derive(Clone)]
pub struct IptvConfig {
    pub user: String,
    pub passwd: String,
    pub mac: String,
    pub imei: Option<String>,
    pub ip: Option<String>,
    pub interface: Option<String>,
}

/// Options of the published playlist.
#[derive(Clone)]
pub struct M3u8Config {
    pub x_tvg_url: String,
    pub format_tvg: bool,
    pub extra_playlist: Option<String>,
    pub extra_xmltv: Option<String>,
    pub udp_proxy_uri: String,
    pub rtsp_proxy_uri: String,
}

/// The IMEI the device reports: the configured one, else `default_imei`.
pub open spec fn imei_of(c: IptvConfig) -> Seq<char> {
    match c.imei {
        Some(s) => s@,
        None => "default_imei"@,
    }
}

/// The IP address the device reports: the configured one, else `0.0.0.0`.
pub open spec fn ip_of(c: IptvConfig) -> Seq<char> {
    match c.ip {
        Some(s) => s@,
        None => "0.0.0.0"@,
    }
}

impl IptvConfig {
    /// The IMEI to report.
    pub fn imei_or_default(&self) -> (r: &str)
        ensures
            r@ == imei_of(*self),
    {
        match &self.imei {
            Some(s) => s.as_str(),
            None => "default_imei",
        }
    }

    /// The IP address to report.
    pub fn ip_or_default(&self) -> (r: &str)
        ensures
            r@ == ip_of(*self),
    {
        match &self.ip {
            Some(s) => s.as_str(),
            None => "0.0.0.0",
        }
    }
}

/// Command-line arguments: the path of the configuration file.
#[derive(Clone)]
pub struct Args {
    pub config_file: String,
}

impl Args {
    /// Checks the arguments; every path is accepted.
    pub fn validate(&self) -> (r: Result<(), String>)
        ensures
            r is Ok,
    {
        Ok(())
    }
}

} // verus!
